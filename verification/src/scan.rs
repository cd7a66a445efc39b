//! The scanner: which of the entries of a tree walk are kept for analysis,
//! how far a scan has come, and how an analysed file is reported.
//!
//! Where a function takes `windows`, it says whether the paths are those of
//! a Windows system, on which `\` separates components as `/` does.
//!
//! Walking the tree is the caller's business. Each entry that the walk meets
//! is handed to `ScanState::discover`; the backup subtree is left out there,
//! so a walk that does not prune it gives the same result as one that does.

use vstd::prelude::*;
use crate::audio::{is_audio, is_audio_path};
use crate::paths::{is_separator, separates};
use crate::settings::Settings;
use crate::text::{chars_of, find_from, occurs_at};
use crate::types::{opt_text, Analysis, AnalysisView, ScanEntry, ScanResult, ScanStatus};

verus! {

/// The name of the directory, beside a replaced file, that keeps the
/// original. The scanner never looks into a directory of this name.
pub open spec fn backup_dir() -> Seq<char> {
    ".keson_backup"@
}

/// The name of the backup directory.
pub fn backup_dir_name() -> (s: &'static str)
    ensures
        s@ == backup_dir(),
{
    ".keson_backup"
}

/// Whether `name` stands in `path` at index `i` as a whole component.
pub open spec fn is_component_at(path: Seq<char>, name: Seq<char>, i: int, windows: bool) -> bool {
    &&& occurs_at(path, name, i)
    &&& (i == 0 || is_separator(path[i - 1], windows))
    &&& (i + name.len() == path.len() || is_separator(path[i + name.len()], windows))
}

/// Whether one of the components of `path` is `name`.
pub open spec fn has_component(path: Seq<char>, name: Seq<char>, windows: bool) -> bool {
    exists|i: int| is_component_at(path, name, i, windows)
}

/// Whether one of the components of `path` is `name`.
pub fn path_has_component(path: &str, name: &str, windows: bool) -> (b: bool)
    ensures
        b == has_component(path@, name@, windows),
{
    let p = chars_of(path);
    let n = chars_of(name);
    let plen = p.len();
    let nlen = n.len();
    let mut from: usize = 0;
    loop
        invariant
            plen == p@.len(),
            nlen == n@.len(),
            p@ == path@,
            n@ == name@,
            forall|j: int| 0 <= j < from ==> !is_component_at(p@, n@, j, windows),
        decreases plen + 1 - from,
    {
        match find_from(&p, &n, from) {
            None => {
                assert forall|j: int| !is_component_at(p@, n@, j, windows) by {
                    if j >= from {
                        assert(!occurs_at(p@, n@, j));
                    }
                }
                return false;
            },
            Some(i) => {
                let starts = i == 0 || separates(p[i - 1], windows);
                let ends = i + nlen == plen || separates(p[i + nlen], windows);
                if starts && ends {
                    assert(is_component_at(p@, n@, i as int, windows));
                    return true;
                }
                assert(!is_component_at(p@, n@, i as int, windows));
                if i >= plen {
                    assert forall|j: int| !is_component_at(p@, n@, j, windows) by {
                        if j > i {
                            assert(!occurs_at(p@, n@, j));
                        }
                    }
                    return false;
                }
                from = i + 1;
            },
        }
    }
}

/// Whether the scanner leaves `path` out: it lies in a backup subtree, or
/// is one.
pub open spec fn is_pruned(path: Seq<char>, windows: bool) -> bool {
    has_component(path, backup_dir(), windows)
}

/// An entry that the tree walk met.
#[derive(Debug, PartialEq, Eq)]
pub struct WalkItem {
    pub path: String,
    pub name: String,
    /// Whether the entry is a regular file.
    pub is_file: bool,
}

/// An entry of the walk with its texts as character sequences.
pub struct WalkItemView {
    pub path: Seq<char>,
    pub name: Seq<char>,
    pub is_file: bool,
}

impl View for WalkItem {
    type V = WalkItemView;

    open spec fn view(&self) -> WalkItemView {
        WalkItemView { path: self.path@, name: self.name@, is_file: self.is_file }
    }
}

/// The entries of a walk with their texts as character sequences.
pub open spec fn walk_view(items: Seq<WalkItem>) -> Seq<WalkItemView> {
    items.map_values(|i: WalkItem| i@)
}

/// Whether the scanner counts an entry: it is a file outside the backup
/// subtrees.
pub open spec fn is_counted(path: Seq<char>, is_file: bool, windows: bool) -> bool {
    is_file && !is_pruned(path, windows)
}

/// Whether the scanner keeps an entry for analysis: it is counted, and it is
/// audio.
pub open spec fn is_kept(path: Seq<char>, is_file: bool, windows: bool) -> bool {
    is_counted(path, is_file, windows) && is_audio_path(path, windows)
}

/// The number of entries of a walk that the scanner counts.
pub open spec fn counted_in(items: Seq<WalkItemView>, windows: bool) -> nat
    decreases items.len(),
{
    if items.len() == 0 {
        0
    } else {
        counted_in(items.drop_last(), windows) + if is_counted(
            items.last().path,
            items.last().is_file,
            windows,
        ) {
            1nat
        } else {
            0nat
        }
    }
}

/// The entries of a walk that the scanner keeps for analysis, as pairs of
/// path and name, in the order of the walk.
pub open spec fn kept_of(items: Seq<WalkItemView>, windows: bool) -> Seq<(Seq<char>, Seq<char>)>
    decreases items.len(),
{
    if items.len() == 0 {
        Seq::empty()
    } else if is_kept(items.last().path, items.last().is_file, windows) {
        kept_of(items.drop_last(), windows).push((items.last().path, items.last().name))
    } else {
        kept_of(items.drop_last(), windows)
    }
}

/// The greatest `r <= cap` with `r * r <= n`.
pub open spec fn capped_root(n: nat, cap: nat) -> nat
    decreases cap,
{
    if cap == 0 {
        0
    } else if cap * cap <= n {
        cap
    } else {
        capped_root(n, (cap - 1) as nat)
    }
}

/// The percentage at which the analysis phase starts. The discovery phase
/// stays below it.
pub const ANALYSIS_START_PERCENT: u32 = 15;

/// The highest percentage that the discovery phase shows.
pub const DISCOVERY_MAX_PERCENT: u32 = 12;

/// The percentage shown when `discovered` files have been met: 1 and the
/// whole square root of the count, up to `DISCOVERY_MAX_PERCENT`.
pub open spec fn discovery_percent(discovered: nat) -> nat {
    1 + capped_root(discovered, 11)
}

/// The capped root is a root, stays under the cap, and grows with `n`.
pub proof fn lemma_capped_root(n: nat, m: nat, cap: nat)
    ensures
        capped_root(n, cap) <= cap,
        capped_root(n, cap) * capped_root(n, cap) <= n,
        capped_root(n, cap) < cap ==> n < (capped_root(n, cap) + 1) * (capped_root(n, cap) + 1),
        n <= m ==> capped_root(n, cap) <= capped_root(m, cap),
    decreases cap,
{
    if cap > 0 {
        lemma_capped_root(n, m, (cap - 1) as nat);
        if cap * cap <= n {
        } else {
            let r = capped_root(n, (cap - 1) as nat);
            if r == cap - 1 {
                assert((r + 1) * (r + 1) == cap * cap);
            }
        }
    }
}

/// Progress of the discovery phase never goes back, and stays below the
/// start of the analysis phase.
pub proof fn lemma_discovery_progress(earlier: nat, later: nat)
    requires
        earlier <= later,
    ensures
        1 <= discovery_percent(earlier) <= discovery_percent(later) <= DISCOVERY_MAX_PERCENT,
        discovery_percent(later) < ANALYSIS_START_PERCENT,
{
    lemma_capped_root(earlier, later, 11);
    lemma_capped_root(later, later, 11);
}

/// The percentage shown when `discovered` files have been met.
pub fn discovery_progress(discovered: usize) -> (p: u32)
    ensures
        p == discovery_percent(discovered as nat),
        1 <= p <= DISCOVERY_MAX_PERCENT,
{
    proof {
        lemma_capped_root(discovered as nat, discovered as nat, 11);
    }
    let mut r: u32 = 11;
    while r > 0
        invariant
            r <= 11,
            capped_root(discovered as nat, 11) == capped_root(discovered as nat, r as nat),
        decreases r,
    {
        assert(r * r <= 121) by (nonlinear_arith)
            requires
                r <= 11,
        ;
        let square: u32 = r * r;
        if (square as usize) <= discovered {
            return 1 + r;
        }
        r = r - 1;
    }
    1
}

/// The percentage shown when `done` of `total` files have been analysed:
/// the start of the analysis phase plus the share of the rest that is done,
/// rounded to the nearest whole number, halves upwards. An empty batch is
/// complete.
pub open spec fn analysis_percent(done: nat, total: nat) -> nat {
    if total == 0 || done >= total {
        100
    } else {
        15 + (170 * done + total) / (2 * total)
    }
}

/// Progress of the analysis phase lies between its start and 100, never
/// goes back, and is 100 when all is done.
pub proof fn lemma_analysis_progress(earlier: nat, later: nat, total: nat)
    requires
        earlier <= later,
    ensures
        ANALYSIS_START_PERCENT <= analysis_percent(earlier, total) <= analysis_percent(
            later,
            total,
        ) <= 100,
        later >= total ==> analysis_percent(later, total) == 100,
{
    if total > 0 {
        if earlier < total {
            let a = 170 * earlier + total;
            let d = 2 * total;
            assert(a / d <= 85) by (nonlinear_arith)
                requires
                    a < 172 * total,
                    d == 2 * total,
                    total > 0,
            ;
            assert(a / d >= 0) by (nonlinear_arith)
                requires
                    a >= 0,
                    d > 0,
            ;
            if later < total {
                let b = 170 * later + total;
                assert(a / d <= b / d) by (nonlinear_arith)
                    requires
                        a <= b,
                        d > 0,
                ;
                assert(b / d <= 85) by (nonlinear_arith)
                    requires
                        b < 172 * total,
                        d == 2 * total,
                        total > 0,
                ;
            }
        }
    }
}

/// The percentage shown when `done` of `total` files have been analysed.
pub fn analysis_progress(done: usize, total: usize) -> (p: u32)
    ensures
        p == analysis_percent(done as nat, total as nat),
        ANALYSIS_START_PERCENT <= p <= 100,
{
    proof {
        lemma_analysis_progress(done as nat, done as nat, total as nat);
    }
    if total == 0 || done >= total {
        return 100;
    }
    let a: u128 = 170 * (done as u128) + (total as u128);
    let d: u128 = 2 * (total as u128);
    let q: u128 = a / d;
    15 + (q as u32)
}

/// What is shown when the `done`-th of `total` analyses has ended: the new
/// percentage where it differs from the one before, else nothing. So each
/// value is shown once, by the worker whose completion reached it. Before
/// the first analysis has ended there is nothing to show.
pub fn completion_progress(done: usize, total: usize) -> (r: Option<u32>)
    ensures
        r == if done >= 1 && analysis_percent(done as nat, total as nat) != analysis_percent(
            (done - 1) as nat,
            total as nat,
        ) {
            Some(analysis_percent(done as nat, total as nat) as u32)
        } else {
            None
        },
{
    if done == 0 {
        return None;
    }
    let now = analysis_progress(done, total);
    let before = analysis_progress(done - 1, total);
    if now != before {
        Some(now)
    } else {
        None
    }
}

/// A scan in its discovery phase.
pub struct ScanState {
    windows: bool,
    discovered: usize,
    entries: Vec<ScanEntry>,
}

/// An entry kept for analysis, with its texts as character sequences.
pub open spec fn entry_model(e: ScanEntry) -> (Seq<char>, Seq<char>) {
    (e.path@, e.name@)
}

impl ScanState {
    /// Whether the paths of this scan are those of a Windows system.
    pub closed spec fn windows(&self) -> bool {
        self.windows
    }

    /// The number of files met so far, outside the backup subtrees.
    pub closed spec fn discovered(&self) -> nat {
        self.discovered as nat
    }

    /// The percentage that the scan shows: that of the files met so far.
    pub open spec fn shown(&self) -> nat {
        discovery_percent(self.discovered())
    }

    /// The entries kept so far, as pairs of path and name, in the order in
    /// which the walk met them.
    pub closed spec fn kept(&self) -> Seq<(Seq<char>, Seq<char>)> {
        self.entries@.map_values(|e: ScanEntry| entry_model(e))
    }

    /// The start of a scan of a tree whose paths are those of a Windows
    /// system or of another one. The caller shows 1 percent.
    pub fn new(windows: bool) -> (s: ScanState)
        ensures
            s.windows() == windows,
            s.discovered() == 0,
            s.shown() == 1,
            s.kept() == Seq::<(Seq<char>, Seq<char>)>::empty(),
    {
        let s = ScanState { windows, discovered: 0, entries: Vec::new() };
        assert(s.kept() =~= Seq::<(Seq<char>, Seq<char>)>::empty());
        assert(discovery_percent(0) == 1) by {
            reveal_with_fuel(capped_root, 12);
        }
        s
    }

    /// The number of files met so far, outside the backup subtrees.
    pub fn discovered_count(&self) -> (n: usize)
        ensures
            n == self.discovered(),
    {
        self.discovered
    }

    /// The percentage that the scan shows.
    pub fn shown_percent(&self) -> (p: u32)
        ensures
            p == self.shown(),
    {
        discovery_progress(self.discovered)
    }

    /// Takes note of one entry of the walk. A file outside the backup
    /// subtrees is counted; if it is audio it is kept for analysis. The
    /// result is the percentage to show, where counting the entry changed
    /// it. The percentage never falls.
    pub fn discover(&mut self, item: WalkItem) -> (show: Option<u32>)
        requires
            old(self).discovered() < usize::MAX,
        ensures
            final(self).windows() == old(self).windows(),
            final(self).discovered() == old(self).discovered() + if is_counted(
                item.path@,
                item.is_file,
                old(self).windows(),
            ) {
                1nat
            } else {
                0nat
            },
            final(self).kept() == if is_kept(item.path@, item.is_file, old(self).windows()) {
                old(self).kept().push((item.path@, item.name@))
            } else {
                old(self).kept()
            },
            final(self).shown() >= old(self).shown(),
            show == if final(self).shown() != old(self).shown() {
                Some(final(self).shown() as u32)
            } else {
                None
            },
    {
        if !item.is_file || path_has_component(
            item.path.as_str(),
            backup_dir_name(),
            self.windows,
        ) {
            return None;
        }
        let before = discovery_progress(self.discovered);
        self.discovered = self.discovered + 1;
        proof {
            lemma_discovery_progress(old(self).discovered(), self.discovered());
        }
        if is_audio(item.path.as_str(), self.windows) {
            self.entries.push(ScanEntry { path: item.path, name: item.name });
            assert(self.kept() =~= old(self).kept().push((item.path@, item.name@)));
        }
        let pct = discovery_progress(self.discovered);
        if pct != before {
            Some(pct)
        } else {
            None
        }
    }

    /// Takes note of the entries of a walk, one after the other. The result
    /// holds the percentages to show, in the order in which they came up:
    /// each is higher than the one before, and the last is the percentage
    /// that the scan shows afterwards.
    pub fn discover_all(&mut self, items: Vec<WalkItem>) -> (shows: Vec<u32>)
        requires
            old(self).discovered() + items@.len() <= usize::MAX,
        ensures
            final(self).windows() == old(self).windows(),
            final(self).discovered() == old(self).discovered() + counted_in(
                walk_view(items@),
                old(self).windows(),
            ),
            final(self).kept() == old(self).kept() + kept_of(
                walk_view(items@),
                old(self).windows(),
            ),
            final(self).shown() >= old(self).shown(),
            forall|i: int| 0 <= i < shows@.len() ==> old(self).shown() < #[trigger] shows@[i]
                <= final(self).shown(),
            forall|i: int, j: int| 0 <= i < j < shows@.len() ==> shows@[i] < shows@[j],
            shows@.len() > 0 ==> shows@.last() == final(self).shown(),
            shows@.len() == 0 ==> final(self).shown() == old(self).shown(),
    {
        let ghost all = walk_view(items@);
        let ghost start = self.discovered();
        let ghost windows = self.windows();
        let ghost kept_before = self.kept();
        let mut shows: Vec<u32> = Vec::new();
        assert(all.take(0) =~= Seq::<WalkItemView>::empty());
        assert(kept_before + kept_of(all.take(0), windows) =~= kept_before);
        for item in it: items
            invariant
                walk_view(it.seq()) == all,
                self.windows() == windows,
                start + all.len() <= usize::MAX,
                self.discovered() == start + counted_in(all.take(it.index() as int), windows),
                self.discovered() <= start + it.index(),
                self.kept() == kept_before + kept_of(all.take(it.index() as int), windows),
                self.shown() >= discovery_percent(start),
                forall|i: int|
                    0 <= i < shows@.len() ==> discovery_percent(start) < #[trigger] shows@[i]
                        <= self.shown(),
                forall|i: int, j: int| 0 <= i < j < shows@.len() ==> shows@[i] < shows@[j],
                shows@.len() > 0 ==> shows@.last() == self.shown(),
                shows@.len() == 0 ==> self.shown() == discovery_percent(start),
        {
            let ghost done = it.index() as int;
            let ghost before = self.shown();
            let ghost kept_so_far = self.kept();
            proof {
                assert(all[done] == item@);
                assert(all.take(done + 1).drop_last() =~= all.take(done));
                assert(all.take(done + 1).last() == all[done]);
            }
            let show = self.discover(item);
            proof {
                assert(self.kept() =~= kept_before + kept_of(all.take(done + 1), windows));
            }
            proof {
                lemma_discovery_progress(self.discovered(), self.discovered());
            }
            let ghost earlier = shows@;
            if let Some(percent) = show {
                shows.push(percent);
                proof {
                    assert(percent == self.shown());
                    assert(percent > before);
                    assert forall|i: int| 0 <= i < shows@.len() implies discovery_percent(start)
                        < #[trigger] shows@[i] <= self.shown() by {
                        if i < earlier.len() {
                            assert(shows@[i] == earlier[i]);
                        }
                    }
                    assert forall|i: int, j: int| 0 <= i < j < shows@.len() implies shows@[i]
                        < shows@[j] by {
                        assert(shows@[i] == earlier[i]);
                        if j < earlier.len() {
                            assert(shows@[j] == earlier[j]);
                        }
                    }
                }
            } else {
                assert(self.shown() == before);
            }
        }
        assert(all.take(all.len() as int) =~= all);
        shows
    }

    /// The end of the discovery phase: the entries kept for analysis.
    pub fn finish(self) -> (entries: Vec<ScanEntry>)
        ensures
            entries@.map_values(|e: ScanEntry| entry_model(e)) == self.kept(),
    {
        self.entries
    }
}

/// The status under which a file is reported: a bad file that carries the
/// provenance marker is reported as replaced.
pub open spec fn reported_status(status: ScanStatus, replaced: bool) -> ScanStatus {
    if status == ScanStatus::Bad && replaced {
        ScanStatus::Replaced
    } else {
        status
    }
}

/// A line of the report with its texts as character sequences.
pub struct ScanResultView {
    pub path: Seq<char>,
    pub name: Seq<char>,
    pub bitrate: Option<u32>,
    pub is_lossless: Option<bool>,
    pub note: Option<Seq<char>>,
    pub status: ScanStatus,
    pub replaced: bool,
}

impl View for ScanResult {
    type V = ScanResultView;

    open spec fn view(&self) -> ScanResultView {
        ScanResultView {
            path: self.path@,
            name: self.name@,
            bitrate: self.bitrate,
            is_lossless: self.is_lossless,
            note: opt_text(self.note),
            status: self.status,
            replaced: self.replaced,
        }
    }
}

/// The line of the report for one file.
pub open spec fn scan_result_spec(
    path: Seq<char>,
    name: Seq<char>,
    analysis: Result<AnalysisView, Seq<char>>,
    replaced: bool,
) -> ScanResultView {
    match analysis {
        Ok(a) => ScanResultView {
            path,
            name,
            bitrate: a.bitrate,
            is_lossless: a.is_lossless,
            note: a.note,
            status: reported_status(a.status, replaced),
            replaced,
        },
        Err(e) => ScanResultView {
            path,
            name,
            bitrate: None,
            is_lossless: None,
            note: Some(e),
            status: ScanStatus::Failed,
            replaced,
        },
    }
}

/// The line of the report for one file. An analysis that failed is
/// reported with the failure as its note, so that one file never ends the
/// batch. `replaced` says whether the file carries the provenance marker.
pub fn scan_result(entry: ScanEntry, analysis: Result<Analysis, String>, replaced: bool) -> (r:
    ScanResult)
    ensures
        r@ == scan_result_spec(
            entry.path@,
            entry.name@,
            match analysis {
                Ok(a) => Ok(a@),
                Err(e) => Err(e@),
            },
            replaced,
        ),
{
    match analysis {
        Ok(a) => {
            let status = match a.status {
                ScanStatus::Bad => if replaced {
                    ScanStatus::Replaced
                } else {
                    ScanStatus::Bad
                },
                other => other,
            };
            ScanResult {
                path: entry.path,
                name: entry.name,
                bitrate: a.bitrate,
                is_lossless: a.is_lossless,
                note: a.note,
                status,
                replaced,
            }
        },
        Err(e) => ScanResult {
            path: entry.path,
            name: entry.name,
            bitrate: None,
            is_lossless: None,
            note: Some(e),
            status: ScanStatus::Failed,
            replaced,
        },
    }
}

/// What a scan is run with, once it may start.
#[derive(Clone, Copy, Debug, PartialEq, Eq, Structural)]
pub struct ScanPlan {
    /// The threshold of the quality classes, in kbps.
    pub min_bitrate: u32,
    /// The length of the window that the analyzer looks at, in seconds.
    pub analysis_window_seconds: u32,
    /// Whether verdicts are taken from and put into the cache.
    pub cache_enabled: bool,
    /// The greatest number of entries of the cache; 0 for no bound.
    pub cache_max_entries: usize,
    /// The number of workers asked for; 0 for the number of cores.
    pub requested_workers: usize,
}

/// What is said of a folder that is not there.
pub open spec fn root_missing() -> Seq<char> {
    "Dossier introuvable"@
}

/// The start of a scan. A folder that is not there ends the scan before
/// any work is done. The threshold is the one asked for with the scan, or
/// that of the settings; the rest comes from the settings.
pub fn scan_folder(root_exists: bool, min_kbps: Option<u32>, settings: &Settings) -> (r: Result<
    ScanPlan,
    String,
>)
    ensures
        match r {
            Ok(plan) => root_exists && plan == (ScanPlan {
                min_bitrate: match min_kbps {
                    Some(m) => m,
                    None => settings.min_bitrate,
                },
                analysis_window_seconds: settings.analysis_window_seconds,
                cache_enabled: settings.cache_enabled,
                cache_max_entries: settings.cache_max_entries,
                requested_workers: settings.rayon_threads,
            }),
            Err(e) => !root_exists && e@ == root_missing(),
        },
{
    if !root_exists {
        return Err("Dossier introuvable".to_owned());
    }
    Ok(
        ScanPlan {
            min_bitrate: match min_kbps {
                Some(m) => m,
                None => settings.min_bitrate,
            },
            analysis_window_seconds: settings.analysis_window_seconds,
            cache_enabled: settings.cache_enabled,
            cache_max_entries: settings.cache_max_entries,
            requested_workers: settings.rayon_threads,
        },
    )
}

} // verus!
