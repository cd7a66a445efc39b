//! The settings of a scan, the size of the worker pool, and where the
//! settings and the cache are kept.

use vstd::prelude::*;
use crate::fsplan::{plan_view, FsOp, FsOpView, PlanStep, PlanStepView};
use crate::paths::{name_start, parent_prefix};
use crate::text::{chars_of, push_char, string_of};

verus! {

/// What a scan is run with.
#[derive(Debug, PartialEq, Eq)]
pub struct Settings {
    /// The threshold of the quality classes, in kbps.
    pub min_bitrate: u32,
    /// The length of the window that the analyzer looks at, in seconds.
    pub analysis_window_seconds: u32,
    /// The number of workers; 0 stands for the number of logical cores.
    pub rayon_threads: usize,
    /// Whether verdicts are kept in the cache.
    pub cache_enabled: bool,
    /// The greatest number of entries of the cache; 0 stands for no bound.
    pub cache_max_entries: usize,
    /// The token received when the client was registered.
    pub client_token: Option<String>,
}

impl Default for Settings {
    fn default() -> (s: Settings)
        ensures
            s.min_bitrate == 256,
            s.analysis_window_seconds == 100,
            s.rayon_threads == 0,
            s.cache_enabled,
            s.cache_max_entries == 10_000,
            s.client_token is None,
    {
        Settings {
            min_bitrate: 256,
            analysis_window_seconds: 100,
            rayon_threads: 0,
            cache_enabled: true,
            cache_max_entries: 10_000,
            client_token: None,
        }
    }
}

/// The settings to work with: those that were stored where they could be
/// read and decoded, the defaults otherwise.
pub fn load_settings(stored: Option<Settings>) -> (s: Settings)
    ensures
        match stored {
            Some(t) => s == t,
            None => s.min_bitrate == 256 && s.analysis_window_seconds == 100 && s.rayon_threads
                == 0 && s.cache_enabled && s.cache_max_entries == 10_000 && s.client_token is None,
        },
{
    match stored {
        Some(t) => t,
        None => Settings::default(),
    }
}

/// The number of logical cores of this machine.
///
/// Trusted: `num_cpus::get`, which is documented to return at least 1. The
/// number itself depends on the machine and on what the process may use.
#[verifier::external_body]
fn logical_cpus() -> (n: usize)
    ensures
        n >= 1,
{
    num_cpus::get()
}

/// The size of the worker pool: the number asked for, or, where none is
/// asked for, the number of logical cores, and one worker at least.
pub open spec fn worker_count_spec(requested: usize, logical_cores: usize) -> usize {
    if requested > 0 {
        requested
    } else if logical_cores >= 1 {
        logical_cores
    } else {
        1
    }
}

/// The size of the worker pool on a machine with `logical_cores` cores.
pub fn worker_count_for(requested: usize, logical_cores: usize) -> (n: usize)
    ensures
        n == worker_count_spec(requested, logical_cores),
        n >= 1,
{
    if requested > 0 {
        requested
    } else if logical_cores >= 1 {
        logical_cores
    } else {
        1
    }
}

/// The size of the worker pool on this machine.
pub fn worker_count(requested: usize) -> (n: usize)
    ensures
        n >= 1,
        requested > 0 ==> n == requested,
        exists|cores: usize| cores >= 1 && n == worker_count_spec(requested, cores),
{
    let cores = logical_cpus();
    let n = worker_count_for(requested, cores);
    assert(cores >= 1 && n == worker_count_spec(requested, cores));
    n
}

/// What becomes of the worker pool at the start of a scan.
#[derive(Clone, Copy, Debug, PartialEq, Eq, Structural)]
pub enum PoolPlan {
    /// The pool of this process is used as it is.
    Reuse,
    /// A pool of this size is made, and kept for the scans that follow.
    Create { workers: usize },
}

/// What becomes of the worker pool at the start of a scan on a machine with
/// `logical_cores` cores. `existing` is the size of the pool of this
/// process, if it has one; `requested` the number of workers asked for this
/// scan, 0 for none. A pool that exists is kept, whatever is asked for.
pub fn pool_plan_for(existing: Option<usize>, requested: usize, logical_cores: usize) -> (p:
    PoolPlan)
    ensures
        p == match existing {
            Some(_) => PoolPlan::Reuse,
            None => PoolPlan::Create { workers: worker_count_spec(requested, logical_cores) },
        },
{
    match existing {
        Some(_) => PoolPlan::Reuse,
        None => PoolPlan::Create { workers: worker_count_for(requested, logical_cores) },
    }
}

/// What becomes of the worker pool at the start of a scan on this machine.
/// A pool that exists is kept, whatever is asked for; else a pool is made,
/// of the size asked for or of the number of cores of this machine.
pub fn pool_plan(existing: Option<usize>, requested: usize) -> (p: PoolPlan)
    ensures
        match existing {
            Some(_) => p == PoolPlan::Reuse,
            None => exists|cores: usize|
                cores >= 1 && p == (PoolPlan::Create {
                    workers: worker_count_spec(requested, cores),
                }),
        },
        existing is None && requested > 0 ==> p == (PoolPlan::Create { workers: requested }),
{
    match existing {
        Some(_) => PoolPlan::Reuse,
        None => {
            let cores = logical_cpus();
            let p = pool_plan_for(None, requested, cores);
            assert(cores >= 1 && p == (PoolPlan::Create {
                workers: worker_count_spec(requested, cores),
            }));
            p
        },
    }
}

/// The name of the file that keeps the settings.
pub open spec fn settings_file() -> Seq<char> {
    "settings.json"@
}

/// The name of the file that keeps the cache.
pub open spec fn cache_file() -> Seq<char> {
    "analysis-cache.json"@
}

/// The file `name` in the directory `dir`.
pub open spec fn file_in(dir: Seq<char>, name: Seq<char>) -> Seq<char> {
    dir + seq!['/'] + name
}

/// The file `name` in the directory `dir`.
fn join(dir: String, name: &str) -> (p: String)
    ensures
        p@ == file_in(dir@, name@),
{
    let mut p = dir;
    push_char(&mut p, '/');
    p.append(name);
    p
}

/// The directory of the settings: the first that is known of the data
/// directory, the cache directory and the working directory, and `.` where
/// none is.
pub open spec fn settings_dir(
    data_dir: Option<Seq<char>>,
    cache_dir: Option<Seq<char>>,
    working_dir: Option<Seq<char>>,
) -> Seq<char> {
    match data_dir {
        Some(d) => d,
        None => match cache_dir {
            Some(d) => d,
            None => match working_dir {
                Some(d) => d,
                None => "."@,
            },
        },
    }
}

/// Where the settings are kept.
pub fn settings_path(
    data_dir: Option<String>,
    cache_dir: Option<String>,
    working_dir: Option<String>,
) -> (p: String)
    ensures
        p@ == file_in(
            settings_dir(
                crate::types::opt_text(data_dir),
                crate::types::opt_text(cache_dir),
                crate::types::opt_text(working_dir),
            ),
            settings_file(),
        ),
{
    let dir = match data_dir {
        Some(d) => d,
        None => match cache_dir {
            Some(d) => d,
            None => match working_dir {
                Some(d) => d,
                None => ".".to_owned(),
            },
        },
    };
    join(dir, "settings.json")
}

/// Where the cache is kept: in the data directory, or in the cache directory
/// where the first is not known. Where neither is known, the reason given
/// for the second is handed on.
pub fn cache_path(data_dir: Option<String>, cache_dir: Result<String, String>) -> (r: Result<
    String,
    String,
>)
    ensures
        match data_dir {
            Some(d) => r matches Ok(p) && p@ == file_in(d@, cache_file()),
            None => match cache_dir {
                Ok(d) => r matches Ok(p) && p@ == file_in(d@, cache_file()),
                Err(e) => r == Err::<String, String>(e),
            },
        },
{
    match data_dir {
        Some(d) => Ok(join(d, "analysis-cache.json")),
        None => match cache_dir {
            Ok(d) => Ok(join(d, "analysis-cache.json")),
            Err(e) => Err(e),
        },
    }
}

/// The steps by which the settings are stored: the directory of the file
/// is made, and the file is written.
pub open spec fn save_settings_spec(path: Seq<char>, content: Seq<u8>, windows: bool) -> Seq<PlanStepView> {
    (if parent_prefix(path, windows).len() > 0 {
        Seq::<PlanStepView>::empty().push(
            PlanStepView { op: FsOpView::CreateDirAll { path: parent_prefix(path, windows) }, required: true },
        )
    } else {
        Seq::<PlanStepView>::empty()
    }).push(PlanStepView { op: FsOpView::Write { path, content }, required: true })
}

/// The steps by which the settings, encoded as `content`, are stored at
/// `path`.
pub fn save_settings(path: &str, content: Vec<u8>, windows: bool) -> (plan: Vec<PlanStep>)
    ensures
        plan_view(plan@) == save_settings_spec(path@, content@, windows),
{
    let chars = chars_of(path);
    let start = name_start(&chars, windows);
    let mut plan: Vec<PlanStep> = Vec::new();
    assert(chars@.subrange(0, start as int) =~= parent_prefix(path@, windows));
    if start > 0 {
        plan.push(
            PlanStep { op: FsOp::CreateDirAll { path: string_of(&chars, 0, start) }, required: true },
        );
    }
    plan.push(PlanStep { op: FsOp::Write { path: path.to_owned(), content }, required: true });
    assert(plan_view(plan@) =~= save_settings_spec(path@, content@, windows));
    plan
}

} // verus!
