use keson::audio::ProcessOutcome;
use keson::commands::{
    download_link, open_spectrum, python_check, queue_stats, reveal_in_folder, spectrum_result,
    vendor_dir, Platform,
};

#[test]
fn queue_is_empty() {
    let q = queue_stats();
    assert_eq!((q.active, q.pending), (0, 0));
}

#[test]
fn download_is_answered_with_a_record() {
    let d = download_link("https://example.org/t".to_string(), None).unwrap();
    assert_eq!(d.caption, "https://example.org/t");
    assert_eq!(d.saved_to, "~/Music");
    assert_eq!(d.title, "Placeholder");
    assert_eq!(d.quality, "Unknown");
    assert_eq!(d.warning, "");
    assert_eq!((d.artist, d.album, d.duration_ms, d.bitrate), (None, None, None, None));
    let d = download_link("u".to_string(), Some("/tmp/out".to_string())).unwrap();
    assert_eq!(d.saved_to, "/tmp/out");
}

#[test]
fn showing_a_file() {
    assert_eq!(
        reveal_in_folder(false, "/m/a.mp3", Platform::Linux).unwrap_err(),
        "Fichier introuvable"
    );
    let c = reveal_in_folder(true, "/m/a.mp3", Platform::MacOs).unwrap();
    assert_eq!((c.program.as_str(), c.args), ("open", vec!["-R".to_string(), "/m/a.mp3".to_string()]));
    let c = reveal_in_folder(true, "C:/m/sub/a.mp3", Platform::Windows).unwrap();
    assert_eq!(
        (c.program.as_str(), c.args),
        ("explorer", vec!["/select,".to_string(), "C:\\m\\sub\\a.mp3".to_string()])
    );
    let c = reveal_in_folder(true, "/m/sub/a.mp3", Platform::Linux).unwrap();
    assert_eq!((c.program.as_str(), c.args), ("xdg-open", vec!["/m/sub/".to_string()]));
}

#[test]
fn directory_of_the_analyzer() {
    let found = vendor_dir(vec![
        ("/a/vendor/whatsmybitrate".to_string(), false),
        ("/b/vendor/whatsmybitrate".to_string(), true),
        ("vendor/whatsmybitrate".to_string(), true),
    ]);
    assert_eq!(found, Ok("/b/vendor/whatsmybitrate".to_string()));
    assert_eq!(
        vendor_dir(vec![("/a".to_string(), false)]),
        Err("Vendor whatsmybitrate introuvable".to_string())
    );
    assert_eq!(vendor_dir(Vec::new()), Err("Vendor whatsmybitrate introuvable".to_string()));
}

#[test]
fn interpreter_check() {
    let ok = ProcessOutcome::Exited { success: true, stdout: b"Python 3".to_vec(), stderr: String::new() };
    assert_eq!(python_check(ok), Ok(()));
    let bad = ProcessOutcome::Exited { success: false, stdout: Vec::new(), stderr: "x".to_string() };
    assert_eq!(python_check(bad), Err("python3 introuvable (ajoute-le au PATH)".to_string()));
    let none = ProcessOutcome::NotStarted { error: "enoent".to_string() };
    assert_eq!(python_check(none), Err("python3 introuvable: enoent".to_string()));
}

#[test]
fn spectrum_script() {
    assert_eq!(open_spectrum(false, Ok("/v".to_string())).unwrap_err(), "Fichier introuvable");
    assert_eq!(
        open_spectrum(true, Err("Vendor whatsmybitrate introuvable".to_string())).unwrap_err(),
        "Vendor whatsmybitrate introuvable"
    );
    let script = open_spectrum(true, Ok("/opt/vendor/whatsmybitrate".to_string())).unwrap();
    assert!(script.contains("sys.path.insert(0, r\"/opt/vendor/whatsmybitrate\")\n"));
    assert!(script.starts_with("\nimport sys, tempfile, os\n"));
    assert!(script.ends_with("print(af.spectrogram_path or \"\")\n"));
    assert!(script.contains("af.analyze(generate_spectrogram_flag=True, assets_dir=tmp)"));
}

#[test]
fn spectrum_outcomes() {
    assert_eq!(
        spectrum_result(Some("enoent".to_string()), false, "", ""),
        Err("python3: enoent".to_string())
    );
    let deps = spectrum_result(None, false, "", "ModuleNotFoundError: No module named 'librosa'");
    assert!(deps.unwrap_err().starts_with("Dépendances Python manquantes"));
    let deps = spectrum_result(None, false, "", "ImportError: No module named numpy");
    assert!(deps.unwrap_err().contains("pip install -r vendor/whatsmybitrate/requirements.txt"));
    assert_eq!(
        spectrum_result(None, false, "", "segfault"),
        Err("whatsmybitrate a échoué: segfault".to_string())
    );
    assert!(spectrum_result(None, true, " \n", "").unwrap_err().contains("spectrogramme"));
    assert_eq!(
        spectrum_result(None, true, "  /tmp/wmb-1/spec.png\n", "noise"),
        Ok("/tmp/wmb-1/spec.png".to_string())
    );
}
