//! The outside tools: where they are looked for, in which order they are
//! tried, and what their runs come to.
//!
//! Looking at the disk and running programs is the caller's business. The
//! caller tells this module what it found, and is told what to try next.

use vstd::prelude::*;
use crate::audio::ProcessOutcome;
use crate::text::{joined, opt_str};

verus! {

/// The file name of a tool's executable on this kind of system.
pub open spec fn binary_name_spec(tool: Seq<char>, windows: bool) -> Seq<char> {
    if windows {
        tool + ".exe"@
    } else {
        tool
    }
}

/// The file name of a tool's executable.
pub fn binary_name(tool: &str, windows: bool) -> (n: String)
    ensures
        n@ == binary_name_spec(tool@, windows),
{
    if windows {
        joined(tool, ".exe")
    } else {
        tool.to_owned()
    }
}

/// Where a bundled tool lies: beside the running executable, or else in the
/// directory of bundled binaries. Each argument is that path where the tool
/// was found there.
pub fn resolve_sidecar_path(beside_executable: Option<String>, in_resources: Option<String>) -> (r:
    Option<String>)
    ensures
        r == match beside_executable {
            Some(p) => Some(p),
            None => in_resources,
        },
{
    match beside_executable {
        Some(p) => Some(p),
        None => in_resources,
    }
}

/// A place in which a bundled resource is looked for.
#[derive(Clone, Copy, Debug, PartialEq, Eq, Structural)]
pub enum ResourcePlace {
    /// In the resource directory itself.
    Direct,
    /// In its subdirectory `resources`.
    Nested,
    /// In `_up_/vendor` below it, where a bundle puts what lay beside the
    /// project.
    UpVendor,
}

/// The name of the analyzer's resource directory.
pub open spec fn analyzer_resource() -> Seq<char> {
    "whatsmybitrate"@
}

/// The place of a resource. What lies in the resource directory itself
/// counts first; for the analyzer only a directory counts there, not a file
/// of its name. Then the subdirectory counts, and for the analyzer the
/// vendor directory. Where none is found, the resource directory itself is
/// named.
pub open spec fn resource_place(
    name: Seq<char>,
    direct_exists: bool,
    direct_is_dir: bool,
    nested_exists: bool,
    up_vendor_exists: bool,
) -> ResourcePlace {
    let is_analyzer = name == analyzer_resource();
    if direct_exists && (!is_analyzer || direct_is_dir) {
        ResourcePlace::Direct
    } else if nested_exists {
        ResourcePlace::Nested
    } else if is_analyzer && up_vendor_exists {
        ResourcePlace::UpVendor
    } else {
        ResourcePlace::Direct
    }
}

/// The place of the resource `name`, from what was found on disk.
pub fn get_resource_path(
    name: &str,
    direct_exists: bool,
    direct_is_dir: bool,
    nested_exists: bool,
    up_vendor_exists: bool,
) -> (p: ResourcePlace)
    ensures
        p == resource_place(name@, direct_exists, direct_is_dir, nested_exists, up_vendor_exists),
{
    let is_analyzer = name.to_owned() == "whatsmybitrate".to_owned();
    if direct_exists && (!is_analyzer || direct_is_dir) {
        ResourcePlace::Direct
    } else if nested_exists {
        ResourcePlace::Nested
    } else if is_analyzer && up_vendor_exists {
        ResourcePlace::UpVendor
    } else {
        ResourcePlace::Direct
    }
}

/// What follows the try of a bundled probing tool.
#[derive(Debug, PartialEq, Eq)]
pub enum FfprobeStep {
    /// The tool of the system is to be run.
    RunSystem,
    /// The bundled tool gave this output.
    Done { stdout: Vec<u8> },
}

/// What follows the try of the bundled probing tool. `bundled` is how its
/// run ended, or `None` where no bundled tool was found. Its output counts
/// where it ran and ended well; in every other case the tool of the system
/// is tried.
pub fn run_ffprobe_sidecar(bundled: Option<ProcessOutcome>) -> (r: FfprobeStep)
    ensures
        r == match bundled {
            Some(ProcessOutcome::Exited { success: true, stdout, stderr }) => FfprobeStep::Done {
                stdout,
            },
            _ => FfprobeStep::RunSystem,
        },
{
    match bundled {
        Some(ProcessOutcome::Exited { success: true, stdout, stderr: _ }) => FfprobeStep::Done {
            stdout,
        },
        _ => FfprobeStep::RunSystem,
    }
}

/// What the run of the system's probing tool comes to: its output where it
/// ran and ended well, its complaint where it ended badly, and the reason
/// where it could not be started.
pub fn ffprobe_system_result(outcome: ProcessOutcome) -> (r: Result<Vec<u8>, String>)
    ensures
        match outcome {
            ProcessOutcome::NotStarted { error } => r matches Err(e) && e@
                == "Failed to run ffprobe: "@ + error@,
            ProcessOutcome::Exited { success, stdout, stderr } => if success {
                r == Ok::<Vec<u8>, String>(stdout)
            } else {
                r == Err::<Vec<u8>, String>(stderr)
            },
        },
{
    match outcome {
        ProcessOutcome::NotStarted { error } => Err(
            joined("Failed to run ffprobe: ", error.as_str()),
        ),
        ProcessOutcome::Exited { success, stdout, stderr } => if success {
            Ok(stdout)
        } else {
            Err(stderr)
        },
    }
}

/// What follows the try of a bundled converting tool.
#[derive(Clone, Copy, Debug, PartialEq, Eq, Structural)]
pub enum FfmpegStep {
    /// The tool of the system is to be run.
    RunSystem,
    /// The bundled tool ran; `success` says how it ended.
    Done { success: bool },
}

/// What follows the try of the bundled converting tool. Where it ran, how it
/// ended is the answer, well or badly; the tool of the system is tried only
/// where no bundled tool was found or could be started.
pub fn run_ffmpeg_sidecar(bundled: Option<ProcessOutcome>) -> (r: FfmpegStep)
    ensures
        r == match bundled {
            Some(ProcessOutcome::Exited { success, stdout, stderr }) => FfmpegStep::Done {
                success,
            },
            _ => FfmpegStep::RunSystem,
        },
{
    match bundled {
        Some(ProcessOutcome::Exited { success, stdout: _, stderr: _ }) => FfmpegStep::Done {
            success,
        },
        _ => FfmpegStep::RunSystem,
    }
}

/// What the run of the system's converting tool comes to: how it ended, or
/// the reason where it could not be started.
pub fn ffmpeg_system_result(outcome: ProcessOutcome) -> (r: Result<bool, String>)
    ensures
        match outcome {
            ProcessOutcome::NotStarted { error } => r matches Err(e) && e@
                == "Failed to run ffmpeg: "@ + error@,
            ProcessOutcome::Exited { success, stdout, stderr } => r == Ok::<bool, String>(success),
        },
{
    match outcome {
        ProcessOutcome::NotStarted { error } => Err(
            joined("Failed to run ffmpeg: ", error.as_str()),
        ),
        ProcessOutcome::Exited { success, stdout: _, stderr: _ } => Ok(success),
    }
}

/// The texts of `parts`, each followed by `separator`.
pub open spec fn each_followed(parts: Seq<Seq<char>>, separator: Seq<char>) -> Seq<char>
    decreases parts.len(),
{
    if parts.len() == 0 {
        Seq::empty()
    } else {
        each_followed(parts.drop_last(), separator) + parts.last() + separator
    }
}

/// The directories that go before the search path: the resource directory,
/// its subdirectory `resources`, and the directory of the running
/// executable where it is known.
pub open spec fn resource_dirs(
    resource_dir: Seq<char>,
    nested_dir: Seq<char>,
    exe_dir: Option<Seq<char>>,
) -> Seq<Seq<char>> {
    match exe_dir {
        Some(d) => seq![resource_dir, nested_dir, d],
        None => seq![resource_dir, nested_dir],
    }
}

/// The search path under which the outside tools are run: the directories
/// of the bundled tools first, then the search path as it was. `separator`
/// separates the directories of a search path on this kind of system.
pub fn get_env_with_resources(
    resource_dir: &str,
    nested_dir: &str,
    exe_dir: Option<&str>,
    separator: &str,
    current_path: &str,
) -> (p: String)
    ensures
        p@ == each_followed(
            resource_dirs(resource_dir@, nested_dir@, opt_str(exe_dir)),
            separator@,
        ) + current_path@,
{
    let mut dirs: Vec<&str> = Vec::new();
    dirs.push(resource_dir);
    dirs.push(nested_dir);
    if let Some(d) = exe_dir {
        dirs.push(d);
    }
    let ghost all = resource_dirs(resource_dir@, nested_dir@, opt_str(exe_dir));
    assert(dirs@.len() == all.len());
    assert(forall|j: int| 0 <= j < dirs@.len() ==> (#[trigger] dirs@[j])@ == all[j]);
    let mut p = String::new();
    let mut i: usize = 0;
    while i < dirs.len()
        invariant
            i <= dirs@.len(),
            dirs@.len() == all.len(),
            forall|j: int| 0 <= j < dirs@.len() ==> (#[trigger] dirs@[j])@ == all[j],
            p@ == each_followed(all.take(i as int), separator@),
        decreases dirs@.len() - i,
    {
        p.append(dirs[i]);
        p.append(separator);
        i = i + 1;
        assert(all.take(i as int).drop_last() =~= all.take(i - 1));
    }
    assert(all.take(i as int) =~= all);
    p.append(current_path);
    p
}

} // verus!
