use keson::fsplan::{FsOp, PlanStep};
use keson::remediation::{
    accept_outcome, accept_plan, attempt_is_over, auto_replace_plan, backup_dir_path, backup_path,
    discard_plan, download_path, durations_match, next_state, probed_match, revert_plan, search_query,
    search_request, AcceptOutcome, RemediationAttempt, RemediationError, RemediationEvent,
    RemediationState,
};
use keson::types::ExtractedMetadata;
use std::collections::BTreeMap;

type Files = BTreeMap<String, Vec<u8>>;

fn run(files: &mut Files, plan: &[PlanStep]) {
    for step in plan {
        match &step.op {
            FsOp::CreateDirAll { .. } => {}
            FsOp::Rename { from, to } => {
                if let Some(content) = files.remove(from) {
                    files.insert(to.clone(), content);
                } else {
                    assert!(!step.required, "required rename of a missing file: {}", from);
                }
            }
            FsOp::Remove { path } => {
                let was_there = files.remove(path).is_some();
                assert!(was_there || !step.required);
            }
            FsOp::Write { path, content } => {
                files.insert(path.clone(), content.clone());
            }
        }
    }
}

#[test]
fn ten_seconds_on_three_minutes_is_a_mismatch() {
    assert!(!durations_match(180_000, 190_000));
    assert!(!durations_match(180_000, 170_000));
    assert_eq!(
        next_state(
            RemediationState::Downloaded,
            RemediationEvent::Durations { original_ms: Some(180_000), new_ms: Some(190_000) }
        ),
        Some(RemediationState::DurationMismatch)
    );
    assert_eq!(
        next_state(RemediationState::DurationMismatch, RemediationEvent::Settle { automatic: true }),
        Some(RemediationState::AwaitingUserDecision)
    );
}

#[test]
fn duration_tolerance() {
    assert!(durations_match(180_000, 180_000));
    assert!(durations_match(180_000, 182_000));
    assert!(durations_match(180_000, 178_000));
    assert!(!durations_match(30_000, 32_001));
    assert!(durations_match(30_000, 32_000));
    assert!(durations_match(180_000, 189_000));
    assert!(durations_match(180_000, 171_000));
    assert!(!durations_match(180_000, 189_001));
    assert!(durations_match(0, 2_000));
    assert!(!durations_match(0, 2_001));
    assert!(durations_match(u64::MAX, u64::MAX - u64::MAX / 20));
    assert!(!durations_match(u64::MAX, 0));
    assert!(!durations_match(0, u64::MAX));
    assert!(probed_match(Some(100), Some(100)));
    assert!(!probed_match(None, Some(100)));
    assert!(!probed_match(Some(100), None));
    assert!(!probed_match(None, None));
}

#[test]
fn attempt_with_automatic_replacement() {
    let mut a = RemediationAttempt::new("/m/a.mp3".to_string());
    assert_eq!(a.state, RemediationState::Flagged);
    assert!(a.advance(RemediationEvent::Begin));
    assert!(a.advance(RemediationEvent::Matched));
    assert!(a.advance(RemediationEvent::StartDownload));
    assert!(a.advance(RemediationEvent::DownloadFinished));
    assert!(a.advance(RemediationEvent::Durations {
        original_ms: Some(200_000),
        new_ms: Some(201_000)
    }));
    assert_eq!(a.state, RemediationState::DurationMatch);
    assert_eq!((a.original_duration_ms, a.new_duration_ms), (Some(200_000), Some(201_000)));
    assert!(a.advance(RemediationEvent::Settle { automatic: true }));
    assert_eq!(a.state, RemediationState::AutoReplaced);
    assert!(!a.advance(RemediationEvent::Accept));
    assert_eq!(a.state, RemediationState::AutoReplaced);
    assert!(a.advance(RemediationEvent::Revert));
    assert_eq!(a.state, RemediationState::Reverted);
    assert!(attempt_is_over(a.state));
    assert!(!a.advance(RemediationEvent::Begin));
    assert_eq!(a.original_path, "/m/a.mp3");
}

#[test]
fn attempt_by_hand() {
    let mut a = RemediationAttempt::new("/m/a.mp3".to_string());
    assert!(!a.advance(RemediationEvent::Matched));
    assert!(a.advance(RemediationEvent::Begin));
    assert!(a.advance(RemediationEvent::NoMatch));
    assert_eq!(a.state, RemediationState::NotFound);
    assert!(!a.advance(RemediationEvent::StartDownload));
    assert!(a.advance(RemediationEvent::ManualUrl));
    assert_eq!(a.state, RemediationState::Downloading);
    assert!(a.advance(RemediationEvent::DownloadFinished));
    assert!(a.advance(RemediationEvent::Durations { original_ms: None, new_ms: Some(1) }));
    assert_eq!(a.state, RemediationState::DurationMismatch);
    assert!(a.advance(RemediationEvent::Settle { automatic: false }));
    assert!(a.advance(RemediationEvent::Discard));
    assert_eq!(a.state, RemediationState::Discarded);
    assert!(attempt_is_over(a.state));
}

#[test]
fn failed_download_ends_the_attempt() {
    assert_eq!(
        next_state(RemediationState::Downloading, RemediationEvent::DownloadFailed),
        Some(RemediationState::Aborted)
    );
    assert!(attempt_is_over(RemediationState::Aborted));
    assert_eq!(next_state(RemediationState::Aborted, RemediationEvent::Accept), None);
    assert!(!attempt_is_over(RemediationState::Accepted));
    assert_eq!(
        next_state(RemediationState::DurationMatch, RemediationEvent::Settle { automatic: false }),
        Some(RemediationState::AwaitingUserDecision)
    );
    assert_eq!(
        next_state(RemediationState::AwaitingUserDecision, RemediationEvent::Accept),
        Some(RemediationState::Accepted)
    );
    assert_eq!(
        next_state(RemediationState::Accepted, RemediationEvent::Revert),
        Some(RemediationState::Reverted)
    );
    assert_eq!(next_state(RemediationState::Flagged, RemediationEvent::Revert), None);
}

#[test]
fn backup_paths() {
    assert_eq!(backup_dir_path("/m/album/a.mp3", false), "/m/album/.keson_backup");
    assert_eq!(backup_path("/m/album/a.mp3", false), "/m/album/.keson_backup/a.mp3");
    assert_eq!(backup_path("a.mp3", false), ".keson_backup/a.mp3");
    assert_eq!(backup_path("C:\\m\\a.mp3", true), "C:\\m\\.keson_backup/a.mp3");
    assert_eq!(backup_path("/m/AC\\DC.mp3", false), "/m/.keson_backup/AC\\DC.mp3");
}

#[test]
fn accept_steps() {
    let plan = accept_plan("/m/a.mp3", "/m/a.new.flac", false);
    assert_eq!(
        plan,
        vec![
            PlanStep {
                op: FsOp::CreateDirAll { path: "/m/.keson_backup".to_string() },
                required: false
            },
            PlanStep {
                op: FsOp::Rename {
                    from: "/m/a.mp3".to_string(),
                    to: "/m/.keson_backup/a.mp3".to_string()
                },
                required: true
            },
            PlanStep {
                op: FsOp::Rename { from: "/m/a.new.flac".to_string(), to: "/m/a.mp3".to_string() },
                required: true
            },
        ]
    );
    assert_eq!(accept_outcome(None), AcceptOutcome::Replaced);
    assert_eq!(accept_outcome(Some(1)), AcceptOutcome::BackupFailed);
    assert_eq!(accept_outcome(Some(2)), AcceptOutcome::ReplaceFailed);
}

#[test]
fn revert_steps() {
    assert_eq!(revert_plan("/m/a.mp3", false, false), Err(RemediationError::BackupMissing));
    let plan = revert_plan("/m/a.mp3", true, false).unwrap();
    assert_eq!(plan.len(), 2 + 7);
    assert_eq!(plan[0], PlanStep { op: FsOp::Remove { path: "/m/a.mp3".to_string() }, required: false });
    assert_eq!(
        plan[1],
        PlanStep {
            op: FsOp::Rename {
                from: "/m/.keson_backup/a.mp3".to_string(),
                to: "/m/a.mp3".to_string()
            },
            required: true
        }
    );
    let strays: Vec<String> = plan[2..]
        .iter()
        .map(|s| match &s.op {
            FsOp::Remove { path } => path.clone(),
            other => panic!("{:?}", other),
        })
        .collect();
    assert_eq!(
        strays,
        vec!["/m/a.m4a", "/m/a.aac", "/m/a.wav", "/m/a.flac", "/m/a.ogg", "/m/a.opus", "/m/a.webm"]
    );
    // A capital extension is the same file on a file system that ignores case.
    let plan = revert_plan("/m/A.MP3", true, false).unwrap();
    assert_eq!(plan.len(), 2 + 7);
    assert!(plan.iter().all(|s| s.op != FsOp::Remove { path: "/m/A.mp3".to_string() }));
    // Without an extension there are no strays.
    assert_eq!(revert_plan("/m/README", true, false).unwrap().len(), 2);
    // An extension that is no audio extension has all eight beside it.
    assert_eq!(revert_plan("/m/a.txt", true, false).unwrap().len(), 2 + 8);
}

#[test]
fn revert_undoes_accept() {
    let mut files = Files::new();
    files.insert("/m/a.mp3".to_string(), b"original".to_vec());
    files.insert("/m/a.download.flac".to_string(), b"candidate".to_vec());
    files.insert("/m/b.mp3".to_string(), b"other".to_vec());
    let before = files.clone();

    run(&mut files, &accept_plan("/m/a.mp3", "/m/a.download.flac", false));
    assert_eq!(files.get("/m/a.mp3"), Some(&b"candidate".to_vec()));
    assert_eq!(files.get("/m/.keson_backup/a.mp3"), Some(&b"original".to_vec()));
    assert!(!files.contains_key("/m/a.download.flac"));
    assert_eq!(files.len(), 3);

    // A stray of another format, as a replacement that changed the extension leaves it.
    files.insert("/m/a.flac".to_string(), b"stray".to_vec());
    run(&mut files, &revert_plan("/m/a.mp3", true, false).unwrap());
    assert_eq!(files.get("/m/a.mp3"), Some(&b"original".to_vec()));
    assert!(!files.contains_key("/m/.keson_backup/a.mp3"));
    assert!(!files.contains_key("/m/a.flac"));
    assert!(!files.contains_key("/m/a.download.flac"));
    assert_eq!(files.get("/m/b.mp3"), before.get("/m/b.mp3"));
    assert_eq!(files.len(), 2);
}

#[test]
fn automatic_replacement_and_discard() {
    let plan = auto_replace_plan("/m/a.mp3", true, false);
    assert_eq!(plan.len(), 3);
    let mut files = Files::new();
    files.insert("/m/a.mp3".to_string(), b"o".to_vec());
    files.insert("/m/a.flac".to_string(), b"n".to_vec());
    run(&mut files, &plan);
    assert!(!files.contains_key("/m/a.mp3"));
    assert_eq!(files.get("/m/.keson_backup/a.mp3"), Some(&b"o".to_vec()));
    assert_eq!(files.get("/m/a.flac"), Some(&b"n".to_vec()));
    run(&mut files, &revert_plan("/m/a.mp3", true, false).unwrap());
    assert_eq!(files.get("/m/a.mp3"), Some(&b"o".to_vec()));
    assert_eq!(files.len(), 1);

    let plan = auto_replace_plan("/m/a.mp3", false, false);
    assert_eq!(
        plan,
        vec![PlanStep { op: FsOp::Remove { path: "/m/a.mp3".to_string() }, required: false }]
    );
    assert_eq!(
        discard_plan("/m/a.flac"),
        vec![PlanStep { op: FsOp::Remove { path: "/m/a.flac".to_string() }, required: true }]
    );
}

#[test]
fn search_text_from_file_name() {
    assert_eq!(search_query("Artist - Title.mp3", false), "Artist Title");
    assert_eq!(search_query("Artist - Title - Album.mp3", false), "Artist Title");
    assert_eq!(search_query("Artist - Title - Album - 2001.flac", false), "Artist Title");
    assert_eq!(search_query("JustATitle.mp3", false), "JustATitle");
    assert_eq!(search_query("/home/me/music/Artist - Title.mp3", false), "Artist Title");
    assert_eq!(search_query("no extension - here", false), "no extension here");
    assert_eq!(search_query("A-B - C.d - E.mp3", false), "A-B C.d");
    assert_eq!(search_query(" - .mp3", false), " ");
    assert_eq!(search_query("", false), "");
    assert_eq!(search_query("AC\\DC - Thunder.mp3", false), "AC\\DC Thunder");
    assert_eq!(search_query("C:\\m\\AC - Thunder.mp3", true), "AC Thunder");
}

#[test]
fn search_request_holds_no_path() {
    let metadata = ExtractedMetadata {
        artist: Some("A".to_string()),
        title: None,
        album: None,
        duration_ms: Some(1000),
        isrc: None,
    };
    let r = search_request("/secret/dir/A - T.mp3", metadata, false);
    assert_eq!(r.query, "A T");
    assert_eq!(r.metadata.artist, Some("A".to_string()));
    assert_eq!(r.metadata.duration_ms, Some(1000));
    assert!(!r.query.contains("secret"));
}

#[test]
fn candidate_is_fetched_beside_the_original() {
    assert_eq!(download_path("/m/album/a.mp3", "a.flac", false), "/m/album/a.flac");
    assert_eq!(download_path("/m/album/a.mp3", "../../etc/passwd", false), "/m/album/passwd");
    assert_eq!(download_path("/m/album/a.mp3", "/abs/x.flac", false), "/m/album/x.flac");
    assert_eq!(download_path("a.mp3", "b.flac", false), "b.flac");
    assert_eq!(download_path("C:\\m\\a.mp3", "sub\\b.flac", true), "C:\\m\\b.flac");
    assert_eq!(download_path("/m/a.mp3", "AC\\DC.flac", false), "/m/AC\\DC.flac");
}
