use keson::audio::{
    analysis_from_output, analyze_file_quality, analyze_with_wmb_single, analyzer_args,
    analyzer_report, cached_analysis, classify, decode_analysis, extract_metadata_from_file,
    file_hash, invoke_whatsmybitrate, is_audio, probe_bitrate, quality_string, ProcessOutcome,
    QUALITY_ANALYSIS_WINDOW,
};
use keson::cache::Cache;
use keson::types::{Analysis, AnalyzerOutput, CacheEntry, ScanStatus};

fn report(bitrate: Option<u32>, lossless: Option<bool>, error: Option<&str>) -> AnalyzerOutput {
    AnalyzerOutput {
        estimated_bitrate: bitrate,
        is_lossless: lossless,
        error: error.map(|e| e.to_string()),
    }
}

#[test]
fn audio_by_extension() {
    for name in ["a.mp3", "a.m4a", "a.aac", "a.wav", "a.flac", "a.ogg", "a.opus", "a.webm"] {
        assert!(is_audio(name, false), "{}", name);
        assert!(is_audio(name, true), "{}", name);
    }
    assert!(is_audio("/music/Artist - Title.MP3", false));
    assert!(is_audio("archive.tar.ogg", false));
    assert!(!is_audio("notes.txt", false));
    assert!(!is_audio("mp3", false));
    assert!(!is_audio(".mp3", false));
    assert!(!is_audio("/music/.flac", false));
    assert!(!is_audio("dir.mp3/readme", false));
    assert!(!is_audio("song.mp3x", false));
    assert!(!is_audio("song.", false));
    assert!(!is_audio("", false));
}

#[test]
fn audio_by_the_final_component() {
    // Separators and `.` components at the end do not count.
    assert!(is_audio("song.mp3/", false));
    assert!(is_audio("song.mp3//", false));
    assert!(is_audio("song.mp3/.", false));
    assert!(is_audio("dir/song.mp3/./", false));
    assert!(is_audio("./song.mp3", false));
    // A path that ends in `..` names no file.
    assert!(!is_audio("song.mp3/..", false));
    assert!(!is_audio("..", false));
    assert!(!is_audio(".", false));
    assert!(!is_audio("/", false));
    assert!(is_audio("dir.mp3/", false));
    assert!(!is_audio("a.mp3/b", false));
}

#[test]
fn backslash_separates_on_windows_only() {
    assert!(is_audio("x\\.mp3", false));
    assert!(!is_audio("x\\.mp3", true));
    assert!(is_audio("C:\\music\\song.Flac", true));
    assert!(is_audio("C:\\music\\song.Flac", false));
    assert!(is_audio("song.mp3\\", true));
    assert!(!is_audio("song.mp3\\", false));
    assert!(!is_audio("song.mp3\\notes", true));
    assert!(!is_audio("song.mp3\\notes", false));
    assert!(is_audio("dir.d\\a.ogg", true));
}

#[test]
fn audio_as_the_standard_library_reads_paths() {
    let paths = [
        "", ".", "..", "/", "//", "a", "a.mp3", ".mp3", "..mp3", "a.", "a..mp3", "a.mp3/", "a.mp3//",
        "a.mp3/.", "a.mp3/./", "a.mp3/..", "a.mp3/../", "./a.mp3", "../a.mp3", "/a.mp3", "//a.mp3",
        "a/b.flac", "a.mp3/b", "a.mp3/b.txt", "a/.flac", "a/..flac", "x\\.mp3", "x\\y.mp3",
        "a.mp3\\", "a.MP3", "a.Mp3/", "a.mp3 ", " .mp3", "a/./b.wav", "a/../b.wav", "./.", "./..",
        "a.b.c.ogg", "a.ogg.b", "...", "a/...", ".../a.opus", "a.webm/././/", "\\.m4a",
    ];
    let listed = ["mp3", "m4a", "aac", "wav", "flac", "ogg", "opus", "webm"];
    for p in paths {
        let expected = match std::path::Path::new(p).extension().and_then(|e| e.to_str()) {
            Some(e) => listed.contains(&e.to_lowercase().as_str()),
            None => false,
        };
        assert_eq!(is_audio(p, std::path::is_separator('\\')), expected, "{:?}", p);
    }
}

#[test]
fn audio_as_the_standard_library_reads_every_short_path() {
    if std::path::is_separator('\\') {
        return;
    }
    let alphabet = ['.', '/', '\\', 'o', 'G', 'g'];
    let mut paths = vec![String::new()];
    let mut from = 0;
    for _ in 0..6 {
        let upto = paths.len();
        for i in from..upto {
            for c in alphabet {
                let mut longer = paths[i].clone();
                longer.push(c);
                paths.push(longer);
            }
        }
        from = upto;
    }
    assert_eq!(paths.len(), 55_987);
    let mut audio = 0;
    for p in &paths {
        let expected = match std::path::Path::new(p).extension().and_then(|e| e.to_str()) {
            Some(e) => e.to_lowercase() == "ogg",
            None => false,
        };
        assert_eq!(is_audio(p, false), expected, "{:?}", p);
        if expected {
            audio += 1;
        }
    }
    assert!(audio > 100);
}

#[test]
fn only_ascii_letters_spell_an_audio_extension_in_lower_case() {
    let letters = "mp3m4aacwavflacoggopuswebm";
    for code in 0x80u32..=0x10ffff {
        if let Some(c) = char::from_u32(code) {
            let lower: String = c.to_lowercase().collect();
            assert!(!lower.chars().any(|l| letters.contains(l)), "{:x}", code);
            let name = format!("a.{}gg", c);
            let expected = name.rsplit('.').next().unwrap().to_lowercase() == "ogg";
            assert_eq!(is_audio(&name, false), expected, "{:x}", code);
        }
    }
}

#[test]
fn hash_of_known_content() {
    assert_eq!(
        file_hash(b"abc"),
        "ba7816bf8f01cfea414140de5dae2223b00361a396177a9cb410ff61f20015ad"
    );
    assert_eq!(
        file_hash(b""),
        "e3b0c44298fc1c149afbf4c8996fb92427ae41e4649b934ca495991b7852b855"
    );
    assert_eq!(file_hash(b"abc").len(), 64);
    assert_ne!(file_hash(b"abc"), file_hash(b"abd"));
}

#[test]
fn status_follows_the_decision_table() {
    assert_eq!(classify(true, Some(320), Some(true), 256), ScanStatus::Failed);
    assert_eq!(classify(false, Some(255), None, 256), ScanStatus::Bad);
    assert_eq!(classify(false, Some(256), None, 256), ScanStatus::Good);
    assert_eq!(classify(false, Some(320), Some(false), 256), ScanStatus::Good);
    assert_eq!(classify(false, None, Some(true), 256), ScanStatus::Good);
    assert_eq!(classify(false, None, Some(false), 256), ScanStatus::Failed);
    assert_eq!(classify(false, None, None, 256), ScanStatus::Failed);
}

#[test]
fn bitrate_against_threshold_for_many_values() {
    for min in [0u32, 1, 128, 256, 320, u32::MAX] {
        for bitrate in [0u32, 1, 127, 128, 255, 256, 319, 320, u32::MAX] {
            for lossless in [None, Some(false), Some(true)] {
                let expected = if bitrate >= min { ScanStatus::Good } else { ScanStatus::Bad };
                assert_eq!(classify(false, Some(bitrate), lossless, min), expected);
            }
        }
    }
}

#[test]
fn lossless_without_bitrate_is_good_for_any_threshold() {
    for min in [0u32, 1, 256, 1411, u32::MAX] {
        assert_eq!(classify(false, None, Some(true), min), ScanStatus::Good);
        let a = analysis_from_output(report(None, Some(true), None), min);
        assert_eq!(a.status, ScanStatus::Good);
    }
}

#[test]
fn status_words() {
    assert_eq!(ScanStatus::Good.as_str(), "ok");
    assert_eq!(ScanStatus::Bad.as_str(), "bad");
    assert_eq!(ScanStatus::Failed.as_str(), "error");
    assert_eq!(ScanStatus::Replaced.as_str(), "replaced");
}

#[test]
fn empty_error_text_is_no_error() {
    let a = analysis_from_output(report(Some(320), None, Some("")), 256);
    assert_eq!(
        a,
        Analysis { bitrate: Some(320), is_lossless: None, note: None, status: ScanStatus::Good }
    );
    let b = analysis_from_output(report(Some(320), None, Some("boom")), 256);
    assert_eq!(b.status, ScanStatus::Failed);
    assert_eq!(b.note, Some("boom".to_string()));
    assert_eq!(b.bitrate, Some(320));
}

#[test]
fn corrupt_file_report_is_an_error_and_is_not_cached() {
    let out = decode_analysis(b"{\"error\":\"corrupt file\"}").unwrap();
    assert_eq!(out, report(None, None, Some("corrupt file")));
    let mut cache = Cache::new();
    let r = analyze_with_wmb_single(Ok(out), Some("h1".to_string()), 256, true, &mut cache, 100);
    let a = r.unwrap();
    assert_eq!(a.status, ScanStatus::Failed);
    assert_eq!(a.note, Some("corrupt file".to_string()));
    assert_eq!(cache.len(), 0);
    assert!(cache.lookup("h1").is_none());
    assert!(cached_analysis(&cache, Some("h1"), 256, true).is_none());
}

#[test]
fn error_with_bitrate_is_not_cached_either() {
    let mut cache = Cache::new();
    let out = report(Some(320), Some(false), Some("partial"));
    let a = analyze_with_wmb_single(Ok(out), Some("h".to_string()), 256, true, &mut cache, 0)
        .unwrap();
    assert_eq!(a.status, ScanStatus::Failed);
    assert_eq!(cache.len(), 0);
}

#[test]
fn unusable_report_is_not_cached() {
    let mut cache = Cache::new();
    let out = report(None, Some(false), None);
    let a = analyze_with_wmb_single(Ok(out), Some("h".to_string()), 256, true, &mut cache, 0)
        .unwrap();
    assert_eq!(a.status, ScanStatus::Failed);
    assert_eq!(cache.len(), 0);
}

#[test]
fn analyzer_failure_is_handed_on_and_leaves_the_cache() {
    let mut cache = Cache::new();
    cache.insert("old".to_string(), CacheEntry { bitrate: Some(1), is_lossless: None, note: None });
    let r = analyze_with_wmb_single(
        Err("spawn failed".to_string()),
        Some("h".to_string()),
        256,
        true,
        &mut cache,
        1,
    );
    assert_eq!(r, Err("spawn failed".to_string()));
    assert_eq!(cache.len(), 1);
    assert!(cache.lookup("old").is_some());
}

#[test]
fn second_analysis_is_served_from_the_cache() {
    let mut cache = Cache::new();
    assert!(cached_analysis(&cache, Some("abc"), 256, true).is_none());
    let first = analyze_with_wmb_single(
        Ok(report(Some(320), Some(false), None)),
        Some("abc".to_string()),
        256,
        true,
        &mut cache,
        10,
    )
    .unwrap();
    let second = cached_analysis(&cache, Some("abc"), 256, true).expect("cache hit");
    assert_eq!(first, second);
    assert_eq!(second.status, ScanStatus::Good);
    // Another threshold gives the class for that threshold, from the same verdict.
    let strict = cached_analysis(&cache, Some("abc"), 400, true).unwrap();
    assert_eq!(strict.status, ScanStatus::Bad);
    assert_eq!(strict.bitrate, Some(320));
}

#[test]
fn second_analysis_survives_a_limit_of_one() {
    let mut cache = Cache::new();
    for (i, h) in ["a", "b", "c"].iter().enumerate() {
        analyze_with_wmb_single(
            Ok(report(Some(100 + i as u32), None, None)),
            Some(h.to_string()),
            0,
            true,
            &mut cache,
            1,
        )
        .unwrap();
        assert_eq!(cache.len(), 1);
        let hit = cached_analysis(&cache, Some(h), 0, true).unwrap();
        assert_eq!(hit.bitrate, Some(100 + i as u32));
    }
    assert!(cached_analysis(&cache, Some("a"), 0, true).is_none());
}

#[test]
fn cache_is_left_alone_when_disabled_or_without_hash() {
    let mut cache = Cache::new();
    analyze_with_wmb_single(
        Ok(report(Some(320), None, None)),
        Some("h".to_string()),
        256,
        false,
        &mut cache,
        10,
    )
    .unwrap();
    assert_eq!(cache.len(), 0);
    analyze_with_wmb_single(Ok(report(Some(320), None, None)), None, 256, true, &mut cache, 10)
        .unwrap();
    assert_eq!(cache.len(), 0);
    cache.insert("h".to_string(), CacheEntry { bitrate: Some(320), is_lossless: None, note: None });
    assert!(cached_analysis(&cache, Some("h"), 256, false).is_none());
    assert!(cached_analysis(&cache, None, 256, true).is_none());
    assert!(cached_analysis(&cache, Some("h"), 256, true).is_some());
}

#[test]
fn unusable_cache_entry_counts_as_a_miss() {
    let mut cache = Cache::new();
    cache.insert("h".to_string(), CacheEntry { bitrate: None, is_lossless: Some(false), note: None });
    assert!(cached_analysis(&cache, Some("h"), 256, true).is_none());
    cache.insert("l".to_string(), CacheEntry { bitrate: None, is_lossless: Some(true), note: None });
    let hit = cached_analysis(&cache, Some("l"), 256, true).unwrap();
    assert_eq!(hit.status, ScanStatus::Good);
}

#[test]
fn quality_line() {
    assert_eq!(quality_string(Some(320), Some(true)), "320 kbps (Lossless)");
    assert_eq!(quality_string(Some(1411), Some(true)), "1411 kbps (Lossless)");
    assert_eq!(quality_string(Some(128), Some(false)), "128 kbps");
    assert_eq!(quality_string(Some(0), None), "0 kbps");
    assert_eq!(quality_string(Some(u32::MAX), None), "4294967295 kbps");
    assert_eq!(quality_string(None, Some(true)), "Unknown");
    assert_eq!(quality_string(None, None), "Unknown");
}

#[test]
fn quality_of_a_single_file() {
    let q = analyze_file_quality(Ok(report(Some(256), Some(false), Some("")))).unwrap();
    assert_eq!(q.bitrate, Some(256));
    assert_eq!(q.is_lossless, Some(false));
    assert_eq!(q.quality_string, "256 kbps");
    assert_eq!(q.error, None);
    let failed = analyze_file_quality(Err("no analyzer".to_string()));
    assert_eq!(failed.unwrap_err(), "no analyzer");
    assert_eq!(QUALITY_ANALYSIS_WINDOW, 30);
}

#[test]
fn analyzer_arguments() {
    assert_eq!(analyzer_args("probe", "/m/a.mp3", None, None), vec!["probe", "/m/a.mp3"]);
    assert_eq!(
        analyzer_args("analyze", "/m/a.mp3", Some(100), None),
        vec!["analyze", "/m/a.mp3", "--window", "100"]
    );
    assert_eq!(
        analyzer_args("analyze", "a", Some(0), Some("/tmp/out")),
        vec!["analyze", "a", "--window", "0", "--output", "/tmp/out"]
    );
}

#[test]
fn analyzer_start() {
    let bundled = invoke_whatsmybitrate(
        "analyze",
        "a.mp3",
        Some(30),
        None,
        Some("/app/whatsmybitrate".to_string()),
        Some("/dev/cli.py".to_string()),
        Some("/app/ffprobe".to_string()),
    )
    .unwrap();
    assert_eq!(bundled.program, "/app/whatsmybitrate");
    assert_eq!(bundled.args, vec!["analyze", "a.mp3", "--window", "30"]);
    assert_eq!(bundled.ffprobe_path, Some("/app/ffprobe".to_string()));

    let script = invoke_whatsmybitrate(
        "probe",
        "a.mp3",
        None,
        None,
        None,
        Some("/dev/cli.py".to_string()),
        Some("/app/ffprobe".to_string()),
    )
    .unwrap();
    assert_eq!(script.program, "python3");
    assert_eq!(script.args, vec!["/dev/cli.py", "probe", "a.mp3"]);
    assert_eq!(script.ffprobe_path, None);

    let missing = invoke_whatsmybitrate("probe", "a.mp3", None, None, None, None, None);
    assert_eq!(
        missing.unwrap_err(),
        "Bundled whatsmybitrate not found and dev script missing"
    );
}

#[test]
fn analyzer_output_is_decoded() {
    let out = decode_analysis(
        b"{\"estimated_bitrate_numeric\": 319.6, \"is_lossless\": false, \"error\": \"\"}",
    )
    .unwrap();
    assert_eq!(out, report(Some(320), Some(false), Some("")));
    let out = decode_analysis(b"{\"estimated_bitrate_numeric\": null, \"is_lossless\": true}")
        .unwrap();
    assert_eq!(out, report(None, Some(true), None));
    let out = decode_analysis(b"{\"estimated_bitrate_numeric\": \"320\", \"is_lossless\": 1, \"error\": 7}")
        .unwrap();
    assert_eq!(out, report(None, None, None));
    let out = decode_analysis(b"[1, 2]").unwrap();
    assert_eq!(out, report(None, None, None));
    let err = decode_analysis(b"not json").unwrap_err();
    assert!(err.starts_with("Failed to parse output: "), "{}", err);
    assert!(err.len() > "Failed to parse output: ".len());
}

#[test]
fn analyzer_run_outcomes() {
    let not_started = ProcessOutcome::NotStarted { error: "no such file".to_string() };
    assert_eq!(
        analyzer_report(false, not_started).unwrap_err(),
        "whatsmybitrate execution failed: no such file"
    );
    let not_started = ProcessOutcome::NotStarted { error: "no such file".to_string() };
    assert_eq!(analyzer_report(true, not_started).unwrap_err(), "python3 failed: no such file");
    let failed = ProcessOutcome::Exited {
        success: false,
        stdout: b"{\"estimated_bitrate_numeric\": 320}".to_vec(),
        stderr: "traceback".to_string(),
    };
    assert_eq!(analyzer_report(false, failed).unwrap_err(), "traceback");
    let good = ProcessOutcome::Exited {
        success: true,
        stdout: b"{\"estimated_bitrate_numeric\": 128.4}".to_vec(),
        stderr: "warning".to_string(),
    };
    assert_eq!(analyzer_report(false, good).unwrap(), report(Some(128), None, None));
    let garbage = ProcessOutcome::Exited {
        success: true,
        stdout: b"<html>".to_vec(),
        stderr: String::new(),
    };
    assert!(analyzer_report(true, garbage).unwrap_err().starts_with("Failed to parse output: "));
}

#[test]
fn probed_bitrate() {
    assert_eq!(probe_bitrate(b"{\"bitrate\": 191.5}"), Some(192));
    assert_eq!(probe_bitrate(b"{\"bitrate\": 320}"), Some(320));
    assert_eq!(probe_bitrate(b"{\"bitrate\": -3}"), Some(0));
    assert_eq!(probe_bitrate(b"{\"bitrate\": 1e12}"), Some(u32::MAX));
    assert_eq!(probe_bitrate(b"{\"bitrate\": \"320\"}"), None);
    assert_eq!(probe_bitrate(b"{\"other\": 1}"), None);
    assert_eq!(probe_bitrate(b"oops"), None);
}

#[test]
fn metadata_from_probe_output() {
    let out = b"{\"format\": {\"duration\": \"183.456000\", \"tags\": {\"ARTIST\": \"A\", \"albumartist\": \"B\", \"title\": \"T\", \"TITLE\": \"T2\", \"ALBUM\": \"L\", \"TSRC\": \"X1\"}}}";
    let m = extract_metadata_from_file(out);
    assert_eq!(m.duration_ms, Some(183_456));
    assert_eq!(m.artist, Some("A".to_string()));
    assert_eq!(m.title, Some("T".to_string()));
    assert_eq!(m.album, Some("L".to_string()));
    assert_eq!(m.isrc, Some("X1".to_string()));

    let m = extract_metadata_from_file(
        b"{\"format\": {\"duration\": \"N/A\", \"tags\": {\"artist\": 3, \"ALBUMARTIST\": \"Z\"}}}",
    );
    assert_eq!(m.duration_ms, None);
    assert_eq!(m.artist, Some("Z".to_string()));
    assert_eq!(m.title, None);

    let m = extract_metadata_from_file(b"{\"format\": {}}");
    assert_eq!((m.duration_ms, m.artist, m.title, m.album, m.isrc), (None, None, None, None, None));
    let m = extract_metadata_from_file(b"garbage");
    assert_eq!((m.duration_ms, m.artist, m.title, m.album, m.isrc), (None, None, None, None, None));
}
