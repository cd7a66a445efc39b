//! The small commands around a scan: the load of the queue, the start of a
//! download, showing a file in the file manager, and drawing a file's
//! spectrum.
//!
//! Running programs is the caller's business. This module says which
//! program is run with which arguments, and what its run comes to.

use vstd::prelude::*;
use crate::audio::ProcessOutcome;
use crate::paths::{name_start, parent_prefix};
use crate::text::{chars_of, joined, contains, contains_text, push_char, string_of, trim, trimmed};
use crate::types::{DownloadResult, QueueStats};

verus! {

/// The load of the download queue. Downloads are not queued here: the
/// queue is empty.
pub fn queue_stats() -> (q: QueueStats)
    ensures
        q.active == 0,
        q.pending == 0,
{
    QueueStats { active: 0, pending: 0 }
}

/// Where downloads go where no directory is named.
pub open spec fn default_download_dir() -> Seq<char> {
    "~/Music"@
}

/// The answer to a request to download `url` into `output_dir`: a record
/// that names the link and the directory, and holds nothing yet of the
/// track.
pub fn download_link(url: String, output_dir: Option<String>) -> (r: Result<DownloadResult, String>)
    ensures
        r matches Ok(d) && d.caption == url && d.saved_to@ == (match output_dir {
            Some(dir) => dir@,
            None => default_download_dir(),
        }) && d.title@ == "Placeholder"@ && d.quality@ == "Unknown"@ && d.warning@.len() == 0
            && d.artist is None && d.album is None && d.duration_ms is None && d.bitrate is None
            && d.source is None && d.cover_url is None,
{
    let saved_to = match output_dir {
        Some(dir) => dir,
        None => "~/Music".to_owned(),
    };
    Ok(
        DownloadResult {
            title: "Placeholder".to_owned(),
            artist: None,
            album: None,
            duration_ms: None,
            bitrate: None,
            source: None,
            cover_url: None,
            caption: url,
            quality: "Unknown".to_owned(),
            warning: String::new(),
            saved_to,
        },
    )
}

/// The kind of system that the program runs on.
#[derive(Clone, Copy, Debug, PartialEq, Eq, Structural)]
pub enum Platform {
    MacOs,
    Windows,
    Linux,
}

/// A program to run, with its arguments.
#[derive(Debug, PartialEq, Eq)]
pub struct Command {
    pub program: String,
    pub args: Vec<String>,
}

/// `path` with `\` in place of each `/`.
pub open spec fn backslashed(path: Seq<char>) -> Seq<char> {
    path.map_values(
        |c: char|
            if c == '/' {
                '\\'
            } else {
                c
            },
    )
}

/// `path` with `\` in place of each `/`.
fn with_backslashes(path: &str) -> (r: String)
    ensures
        r@ == backslashed(path@),
{
    let chars = chars_of(path);
    let mut r = String::new();
    let mut i: usize = 0;
    while i < chars.len()
        invariant
            i <= chars@.len(),
            r@ == backslashed(chars@.take(i as int)),
        decreases chars@.len() - i,
    {
        let c = chars[i];
        push_char(
            &mut r,
            if c == '/' {
                '\\'
            } else {
                c
            },
        );
        i = i + 1;
        assert(backslashed(chars@.take(i as int)) =~= backslashed(chars@.take(i - 1)).push(
            if c == '/' {
                '\\'
            } else {
                c
            },
        ));
    }
    assert(chars@.take(chars@.len() as int) =~= chars@);
    r
}

/// What is said of a file that is not there.
pub open spec fn file_missing() -> Seq<char> {
    "Fichier introuvable"@
}

/// The program and the arguments that show a file in the file manager.
pub open spec fn reveal_spec(path: Seq<char>, platform: Platform) -> (Seq<char>, Seq<Seq<char>>) {
    match platform {
        Platform::MacOs => ("open"@, seq!["-R"@, path]),
        Platform::Windows => ("explorer"@, seq!["/select,"@, backslashed(path)]),
        Platform::Linux => ("xdg-open"@, seq![parent_prefix(path, false)]),
    }
}

/// How the file at `path` is shown in the file manager: selected in its
/// directory where the system can do that, else by opening its directory.
/// A file that is not there is not shown.
pub fn reveal_in_folder(path_exists: bool, path: &str, platform: Platform) -> (r: Result<
    Command,
    String,
>)
    ensures
        match r {
            Ok(c) => path_exists && (c.program@, crate::text::texts(c.args@)) == reveal_spec(
                path@,
                platform,
            ),
            Err(e) => !path_exists && e@ == file_missing(),
        },
{
    if !path_exists {
        return Err("Fichier introuvable".to_owned());
    }
    let mut args: Vec<String> = Vec::new();
    let program = match platform {
        Platform::MacOs => {
            args.push("-R".to_owned());
            args.push(path.to_owned());
            "open"
        },
        Platform::Windows => {
            args.push("/select,".to_owned());
            args.push(with_backslashes(path));
            "explorer"
        },
        Platform::Linux => {
            let chars = chars_of(path);
            let start = name_start(&chars, false);
            let dir = string_of(&chars, 0, start);
            assert(chars@.subrange(0, start as int) =~= parent_prefix(path@, false));
            args.push(dir);
            "xdg-open"
        },
    };
    assert(crate::text::texts(args@) =~= reveal_spec(path@, platform).1);
    Ok(Command { program: program.to_owned(), args })
}

/// What is said where the analyzer's directory is found nowhere.
pub open spec fn vendor_missing() -> Seq<char> {
    "Vendor whatsmybitrate introuvable"@
}

/// The first of the candidates that is there.
pub open spec fn first_existing(candidates: Seq<(Seq<char>, bool)>) -> Option<Seq<char>>
    decreases candidates.len(),
{
    if candidates.len() == 0 {
        None
    } else if candidates[0].1 {
        Some(candidates[0].0)
    } else {
        first_existing(candidates.drop_first())
    }
}

/// The directory of the analyzer: the first of the candidates that is
/// there. Each candidate comes with the answer to whether it is there.
pub fn vendor_dir(candidates: Vec<(String, bool)>) -> (r: Result<String, String>)
    ensures
        match first_existing(candidates@.map_values(|c: (String, bool)| (c.0@, c.1))) {
            Some(p) => r matches Ok(d) && d@ == p,
            None => r matches Err(e) && e@ == vendor_missing(),
        },
{
    let ghost all = candidates@.map_values(|c: (String, bool)| (c.0@, c.1));
    let mut i: usize = 0;
    assert(all.skip(0) =~= all);
    while i < candidates.len()
        invariant
            i <= candidates@.len(),
            all == candidates@.map_values(|c: (String, bool)| (c.0@, c.1)),
            first_existing(all) == first_existing(all.skip(i as int)),
        decreases candidates@.len() - i,
    {
        assert(all.skip(i as int)[0] == all[i as int]);
        if candidates[i].1 {
            return Ok(candidates[i].0.clone());
        }
        assert(all.skip(i as int).drop_first() =~= all.skip(i + 1));
        i = i + 1;
    }
    Err("Vendor whatsmybitrate introuvable".to_owned())
}

/// What the check of the interpreter comes to: nothing to say where it ran
/// and ended well, else why it cannot be used.
pub fn python_check(outcome: ProcessOutcome) -> (r: Result<(), String>)
    ensures
        match outcome {
            ProcessOutcome::NotStarted { error } => r matches Err(e) && e@
                == "python3 introuvable: "@ + error@,
            ProcessOutcome::Exited { success, stdout, stderr } => if success {
                r is Ok
            } else {
                r matches Err(e) && e@ == "python3 introuvable (ajoute-le au PATH)"@
            },
        },
{
    match outcome {
        ProcessOutcome::NotStarted { error } => Err(
            joined("python3 introuvable: ", error.as_str()),
        ),
        ProcessOutcome::Exited { success, stdout: _, stderr: _ } => if success {
            Ok(())
        } else {
            Err("python3 introuvable (ajoute-le au PATH)".to_owned())
        },
    }
}

/// The script that draws a spectrum, up to the analyzer's directory.
pub open spec fn spectrum_script_head() -> Seq<char> {
    "\nimport sys, tempfile, os\nsys.path.insert(0, r\""@
}

/// The script that draws a spectrum, behind the analyzer's directory.
pub open spec fn spectrum_script_tail() -> Seq<char> {
    "\")\nfrom wmb_core import AudioFile\npath = sys.argv[1]\ntmp = tempfile.mkdtemp(prefix=\"wmb-\")\naf = AudioFile(path)\naf.analyze(generate_spectrogram_flag=True, assets_dir=tmp)\nprint(af.spectrogram_path or \"\")\n"@
}

/// The script that draws the spectrum of the file given as its argument,
/// with the analyzer taken from the directory `vendor`. A file that is not
/// there has no spectrum, and without the analyzer none is drawn.
pub fn open_spectrum(source_exists: bool, vendor: Result<String, String>) -> (r: Result<
    String,
    String,
>)
    ensures
        match r {
            Ok(script) => source_exists && vendor is Ok && script@ == spectrum_script_head()
                + vendor->Ok_0@ + spectrum_script_tail(),
            Err(e) => if !source_exists {
                e@ == file_missing()
            } else {
                vendor == Err::<String, String>(e)
            },
        },
{
    if !source_exists {
        return Err("Fichier introuvable".to_owned());
    }
    match vendor {
        Err(e) => Err(e),
        Ok(v) => {
            let mut script = joined("\nimport sys, tempfile, os\nsys.path.insert(0, r\"", v.as_str());
            script.append(
                "\")\nfrom wmb_core import AudioFile\npath = sys.argv[1]\ntmp = tempfile.mkdtemp(prefix=\"wmb-\")\naf = AudioFile(path)\naf.analyze(generate_spectrogram_flag=True, assets_dir=tmp)\nprint(af.spectrogram_path or \"\")\n",
            );
            Ok(script)
        },
    }
}

/// Whether a complaint says that a module of the interpreter is missing.
pub open spec fn module_missing(stderr: Seq<char>) -> bool {
    contains_text(stderr, "ModuleNotFoundError"@) || contains_text(stderr, "No module named"@)
}

/// What the run of the spectrum script comes to.
pub open spec fn spectrum_result_spec(
    launch_error: Option<Seq<char>>,
    success: bool,
    stdout: Seq<char>,
    stderr: Seq<char>,
) -> Result<Seq<char>, Seq<char>> {
    match launch_error {
        Some(e) => Err("python3: "@ + e),
        None => if !success {
            if module_missing(stderr) {
                Err(
                    "Dépendances Python manquantes (librosa, matplotlib, numpy...). Installe-les : pip install -r vendor/whatsmybitrate/requirements.txt"@,
                )
            } else {
                Err("whatsmybitrate a échoué: "@ + stderr)
            }
        } else if trimmed(stdout).len() == 0 {
            Err(
                "whatsmybitrate n'a pas produit de spectrogramme (vérifie les dépendances Python ou la taille du fichier)"@,
            )
        } else {
            Ok(trimmed(stdout))
        },
    }
}

/// What the run of the spectrum script comes to: the path of the picture
/// that it wrote, or why there is none. `stdout` and `stderr` are what the
/// run wrote, as text.
pub fn spectrum_result(
    launch_error: Option<String>,
    success: bool,
    stdout: &str,
    stderr: &str,
) -> (r: Result<String, String>)
    ensures
        match spectrum_result_spec(
            crate::types::opt_text(launch_error),
            success,
            stdout@,
            stderr@,
        ) {
            Ok(p) => r matches Ok(path) && path@ == p,
            Err(t) => r matches Err(e) && e@ == t,
        },
{
    if let Some(e) = launch_error {
        return Err(joined("python3: ", e.as_str()));
    }
    if !success {
        if contains(stderr, "ModuleNotFoundError") || contains(stderr, "No module named") {
            return Err(
                "Dépendances Python manquantes (librosa, matplotlib, numpy...). Installe-les : pip install -r vendor/whatsmybitrate/requirements.txt".to_owned(),
            );
        }
        return Err(joined("whatsmybitrate a échoué: ", stderr));
    }
    let picture = trim(stdout);
    if picture.as_str().is_empty() {
        return Err(
            "whatsmybitrate n'a pas produit de spectrogramme (vérifie les dépendances Python ou la taille du fichier)".to_owned(),
        );
    }
    Ok(picture)
}

} // verus!
