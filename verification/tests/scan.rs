use keson::audio::{analysis_from_output, decode_analysis};
use keson::scan::{
    analysis_progress, backup_dir_name, completion_progress, discovery_progress,
    path_has_component, scan_folder, scan_result, ScanPlan, ScanState, WalkItem,
    ANALYSIS_START_PERCENT, DISCOVERY_MAX_PERCENT,
};
use keson::settings::Settings;
use keson::types::{Analysis, ScanEntry, ScanStatus};

fn file(path: &str) -> WalkItem {
    let name = path.rsplit('/').next().unwrap().to_string();
    WalkItem { path: path.to_string(), name, is_file: true }
}

fn dir(path: &str) -> WalkItem {
    let name = path.rsplit('/').next().unwrap().to_string();
    WalkItem { path: path.to_string(), name, is_file: false }
}

#[test]
fn components_of_a_path() {
    assert!(path_has_component("/a/b/c", "b", false));
    assert!(path_has_component("/a/b/c", "a", false));
    assert!(path_has_component("/a/b/c", "c", false));
    assert!(path_has_component("b", "b", false));
    assert!(path_has_component("a\\b\\c", "b", true));
    assert!(!path_has_component("a\\b\\c", "b", false));
    assert!(!path_has_component("/a/bb/c", "b", false));
    assert!(!path_has_component("/a/xb/c", "b", false));
    assert!(!path_has_component("/a/bx/c", "b", false));
    assert!(path_has_component("/a/bx/b", "b", false));
    assert!(path_has_component("/xb/b/c", "b", false));
    assert!(!path_has_component("", "b", false));
    assert!(path_has_component("/a//c", "", false));
}

#[test]
fn backup_subtree_is_pruned() {
    let backup = backup_dir_name();
    let mut s = ScanState::new(false);
    s.discover(dir("/music"));
    s.discover(file("/music/one.mp3"));
    s.discover(dir(&format!("/music/{}", backup)));
    s.discover(file(&format!("/music/{}/one.mp3", backup)));
    s.discover(file(&format!("/music/{}/deep/two.flac", backup)));
    s.discover(file(&format!("/music/{}x/three.flac", backup)));
    s.discover(file("/music/cover.jpg"));
    assert_eq!(s.discovered_count(), 3);
    let kept = s.finish();
    assert_eq!(
        kept,
        vec![
            ScanEntry { path: "/music/one.mp3".to_string(), name: "one.mp3".to_string() },
            ScanEntry {
                path: format!("/music/{}x/three.flac", backup),
                name: "three.flac".to_string()
            },
        ]
    );
}

#[test]
fn discovery_progress_values() {
    assert_eq!(discovery_progress(0), 1);
    assert_eq!(discovery_progress(1), 2);
    assert_eq!(discovery_progress(3), 2);
    assert_eq!(discovery_progress(4), 3);
    assert_eq!(discovery_progress(99), 10);
    assert_eq!(discovery_progress(100), 11);
    assert_eq!(discovery_progress(120), 11);
    assert_eq!(discovery_progress(121), 12);
    assert_eq!(discovery_progress(144), 12);
    assert_eq!(discovery_progress(1_000_000), 12);
    assert_eq!(discovery_progress(usize::MAX), 12);
}

#[test]
fn discovery_progress_never_goes_back() {
    let mut last = 0;
    for n in 0usize..2000 {
        let p = discovery_progress(n);
        assert!(p >= last);
        assert!(p >= 1 && p <= DISCOVERY_MAX_PERCENT);
        assert!(p < ANALYSIS_START_PERCENT);
        last = p;
    }
}

#[test]
fn discovery_shows_each_change_once() {
    let mut s = ScanState::new(false);
    assert_eq!(s.shown_percent(), 1);
    let mut shown = Vec::new();
    for i in 0..10 {
        if let Some(p) = s.discover(file(&format!("/m/{}.txt", i))) {
            shown.push((i + 1, p));
        }
    }
    assert_eq!(shown, vec![(1, 2), (4, 3), (9, 4)]);
    assert_eq!(s.discover(dir("/m/sub")), None);
    assert_eq!(s.discovered_count(), 10);
    assert!(s.finish().is_empty());
}

#[test]
fn analysis_progress_values() {
    assert_eq!(analysis_progress(0, 10), 15);
    assert_eq!(analysis_progress(1, 10), 24);
    assert_eq!(analysis_progress(5, 10), 58);
    assert_eq!(analysis_progress(9, 10), 92);
    assert_eq!(analysis_progress(10, 10), 100);
    assert_eq!(analysis_progress(1, 2), 58);
    assert_eq!(analysis_progress(1, 3), 43);
    assert_eq!(analysis_progress(1, 170), 16);
    assert_eq!(analysis_progress(1, 171), 15);
    assert_eq!(analysis_progress(0, 0), 100);
    assert_eq!(analysis_progress(11, 10), 100);
    assert_eq!(analysis_progress(usize::MAX - 1, usize::MAX), 100);
}

#[test]
fn analysis_progress_matches_rounding() {
    for total in 1usize..60 {
        let mut last = 15;
        for done in 0..=total {
            let expected = (15.0 + (done as f64 / total as f64) * 85.0 + 1e-9).round() as u32;
            let p = analysis_progress(done, total);
            assert_eq!(p, expected, "{} of {}", done, total);
            assert!(p >= last);
            last = p;
        }
        assert_eq!(last, 100);
    }
}

#[test]
fn completion_shows_distinct_values() {
    let mut shown = Vec::new();
    for done in 1..=400usize {
        if let Some(p) = completion_progress(done, 400) {
            shown.push(p);
        }
    }
    assert_eq!(shown.len(), 85);
    assert_eq!(shown[0], 16);
    assert_eq!(*shown.last().unwrap(), 100);
    for w in shown.windows(2) {
        assert!(w[0] < w[1]);
    }
    assert_eq!(completion_progress(1, 1), Some(100));
    assert_eq!(completion_progress(0, 10), None);
    assert_eq!(completion_progress(1, 0), None);
    assert_eq!(completion_progress(2, 3), Some(72));
}

#[test]
fn two_good_files_and_a_bad_one() {
    let mut s = ScanState::new(false);
    s.discover(file("/lib/a.mp3"));
    s.discover(file("/lib/b.flac"));
    let entries = s.finish();
    assert_eq!(entries.len(), 2);
    let outputs: [&[u8]; 2] = [
        b"{\"estimated_bitrate_numeric\": 320, \"is_lossless\": false, \"error\": \"\"}",
        b"{\"estimated_bitrate_numeric\": null, \"is_lossless\": true, \"error\": \"\"}",
    ];
    let mut results = Vec::new();
    for (entry, out) in entries.into_iter().zip(outputs) {
        let a = analysis_from_output(decode_analysis(out).unwrap(), 256);
        results.push(scan_result(entry, Ok(a), false));
    }
    assert_eq!(results.len(), 2);
    assert_eq!(results[0].status, ScanStatus::Good);
    assert_eq!(results[0].bitrate, Some(320));
    assert_eq!(results[0].path, "/lib/a.mp3");
    assert_eq!(results[1].status, ScanStatus::Good);
    assert_eq!(results[1].is_lossless, Some(true));
    assert_eq!(results[1].name, "b.flac");

    let low = analysis_from_output(
        decode_analysis(b"{\"estimated_bitrate_numeric\": 128, \"is_lossless\": false}").unwrap(),
        256,
    );
    let r = scan_result(
        ScanEntry { path: "/lib/c.mp3".to_string(), name: "c.mp3".to_string() },
        Ok(low),
        false,
    );
    assert_eq!(r.status, ScanStatus::Bad);
    assert_eq!(r.status.as_str(), "bad");
    assert!(!r.replaced);
}

#[test]
fn bad_file_with_marker_is_reported_as_replaced() {
    let entry = || ScanEntry { path: "/l/x.mp3".to_string(), name: "x.mp3".to_string() };
    let analysis = |status| Analysis { bitrate: Some(96), is_lossless: None, note: None, status };
    let r = scan_result(entry(), Ok(analysis(ScanStatus::Bad)), true);
    assert_eq!(r.status, ScanStatus::Replaced);
    assert!(r.replaced);
    let r = scan_result(entry(), Ok(analysis(ScanStatus::Good)), true);
    assert_eq!(r.status, ScanStatus::Good);
    assert!(r.replaced);
    let r = scan_result(entry(), Ok(analysis(ScanStatus::Failed)), true);
    assert_eq!(r.status, ScanStatus::Failed);
}

#[test]
fn failed_analysis_becomes_an_error_line() {
    let r = scan_result(
        ScanEntry { path: "/l/x.mp3".to_string(), name: "x.mp3".to_string() },
        Err("analyzer crashed".to_string()),
        false,
    );
    assert_eq!(r.status, ScanStatus::Failed);
    assert_eq!(r.note, Some("analyzer crashed".to_string()));
    assert_eq!((r.bitrate, r.is_lossless), (None, None));
    assert_eq!(r.path, "/l/x.mp3");
}

#[test]
fn scan_needs_its_folder() {
    let settings = Settings::default();
    assert_eq!(scan_folder(false, None, &settings).unwrap_err(), "Dossier introuvable");
    assert_eq!(
        scan_folder(true, None, &settings).unwrap(),
        ScanPlan {
            min_bitrate: 256,
            analysis_window_seconds: 100,
            cache_enabled: true,
            cache_max_entries: 10_000,
            requested_workers: 0,
        }
    );
    assert_eq!(scan_folder(true, Some(192), &settings).unwrap().min_bitrate, 192);
}

#[test]
fn a_whole_walk() {
    let mut items = vec![dir("/m")];
    for i in 0..30 {
        items.push(file(&format!("/m/{}.mp3", i)));
        items.push(file(&format!("/m/{}.txt", i)));
        items.push(file(&format!("/m/.keson_backup/{}.mp3", i)));
    }
    let mut s = ScanState::new(false);
    let shows = s.discover_all(items);
    assert_eq!(s.discovered_count(), 60);
    assert_eq!(shows, vec![2, 3, 4, 5, 6, 7, 8]);
    assert_eq!(s.shown_percent(), 8);
    let kept = s.finish();
    assert_eq!(kept.len(), 30);
    assert_eq!(kept[0].path, "/m/0.mp3");
    assert_eq!(kept[29].name, "29.mp3");

    let mut s = ScanState::new(false);
    assert!(s.discover_all(Vec::new()).is_empty());
    assert_eq!(s.shown_percent(), 1);
}

#[test]
fn a_walk_on_windows() {
    let mut s = ScanState::new(true);
    s.discover(WalkItem {
        path: "C:\\m\\.keson_backup\\a.mp3".to_string(),
        name: "a.mp3".to_string(),
        is_file: true,
    });
    s.discover(WalkItem {
        path: "C:\\m\\b.FLAC".to_string(),
        name: "b.FLAC".to_string(),
        is_file: true,
    });
    assert_eq!(s.discovered_count(), 1);
    assert_eq!(s.finish().len(), 1);
    // Elsewhere a backslash is a character of a name like any other.
    let mut s = ScanState::new(false);
    s.discover(WalkItem {
        path: "/m/AC\\DC.mp3".to_string(),
        name: "AC\\DC.mp3".to_string(),
        is_file: true,
    });
    s.discover(WalkItem {
        path: "/m/x\\.keson_backup\\y.mp3".to_string(),
        name: "x\\.keson_backup\\y.mp3".to_string(),
        is_file: true,
    });
    assert_eq!(s.finish().len(), 2);
}
