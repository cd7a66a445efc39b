//! The remediation workflow for a flagged file: the states that one attempt
//! passes through, the check that a downloaded candidate is the same track,
//! the text that is searched for, and the file operations by which a
//! candidate takes the place of the original and gives it back.
//!
//! Where a function takes `windows`, it says whether the paths are those of
//! a Windows system, on which `\` separates components as `/` does.
//!
//! Searching, downloading, probing and touching files are the caller's
//! business. The caller reports what happened as events, and carries out the
//! plans that this module hands out, one step after the other.

use vstd::prelude::*;
use crate::audio::{audio_extensions, known_audio_extensions};
use crate::paths::{
    last_segment_dot, last_segment, last_segment_stem, find_extension_dot,
    lemma_last_segment_start, name_start, parent_prefix, stem_path,
};
use crate::fsplan::{
    apply_plan, lemma_apply_concat, lemma_apply_push, plan_view, Files, FsOp, FsOpView,
    PlanStep, PlanStepView,
};
use crate::scan::{backup_dir, backup_dir_name};
use crate::text::{
    ascii_lower_seq, chars_of, find, first_index, lower_chars, push_char, same_chars, string_of,
};
use crate::types::ExtractedMetadata;

verus! {

/// Where one attempt stands.
#[derive(Clone, Copy, Debug, PartialEq, Eq, Structural)]
pub enum RemediationState {
    /// The file was found bad; nothing has been done yet.
    Flagged,
    /// A replacement is being searched for.
    Searching,
    /// The search gave a candidate.
    Found,
    /// The search gave nothing. A candidate named by hand leads on.
    NotFound,
    /// The candidate is being fetched to a path beside the original.
    Downloading,
    /// The candidate lies beside the original.
    Downloaded,
    /// The candidate is as long as the original, within the tolerance.
    DurationMatch,
    /// The candidate is not as long as the original.
    DurationMismatch,
    /// The candidate took the place of the original without a question.
    AutoReplaced,
    /// The user decides what becomes of the candidate.
    AwaitingUserDecision,
    /// The user accepted the candidate: it took the place of the original.
    Accepted,
    /// The candidate was deleted; the original was never touched.
    Discarded,
    /// The original is back in its place.
    Reverted,
    /// The download failed; the original was never touched.
    Aborted,
}

/// What happened to one attempt.
#[derive(Clone, Copy, Debug, PartialEq, Eq, Structural)]
pub enum RemediationEvent {
    /// The attempt starts.
    Begin,
    /// The search gave a candidate.
    Matched,
    /// The search gave nothing.
    NoMatch,
    /// The user named a candidate by hand.
    ManualUrl,
    /// The download of the candidate starts.
    StartDownload,
    /// The candidate was fetched.
    DownloadFinished,
    /// The download failed.
    DownloadFailed,
    /// The lengths of the original and of the candidate were probed, in
    /// milliseconds; `None` where a probe gave nothing.
    Durations { original_ms: Option<u64>, new_ms: Option<u64> },
    /// The check is over; `automatic` says whether a match may replace the
    /// original without a question.
    Settle { automatic: bool },
    /// The user accepts the candidate.
    Accept,
    /// The user discards the candidate.
    Discard,
    /// The user wants the original back.
    Revert,
}

/// Whether two lengths, in milliseconds, are those of one track: they differ
/// by at most two seconds, or by at most five hundredths of the original's
/// length.
pub open spec fn durations_match_spec(original_ms: nat, new_ms: nat) -> bool {
    let diff = if original_ms >= new_ms {
        original_ms - new_ms
    } else {
        new_ms - original_ms
    };
    diff <= 2000 || 100 * diff <= 5 * original_ms
}

/// Whether two lengths, in milliseconds, are those of one track.
pub fn durations_match(original_ms: u64, new_ms: u64) -> (b: bool)
    ensures
        b == durations_match_spec(original_ms as nat, new_ms as nat),
{
    let diff: u64 = if original_ms >= new_ms {
        original_ms - new_ms
    } else {
        new_ms - original_ms
    };
    if diff <= 2000 {
        return true;
    }
    let lhs: u128 = 100 * (diff as u128);
    let rhs: u128 = 5 * (original_ms as u128);
    lhs <= rhs
}

/// Whether two probed lengths are those of one track. A length that could
/// not be probed matches nothing.
pub open spec fn probed_match_spec(original_ms: Option<u64>, new_ms: Option<u64>) -> bool {
    original_ms is Some && new_ms is Some && durations_match_spec(
        original_ms->0 as nat,
        new_ms->0 as nat,
    )
}

/// Whether two probed lengths are those of one track.
pub fn probed_match(original_ms: Option<u64>, new_ms: Option<u64>) -> (b: bool)
    ensures
        b == probed_match_spec(original_ms, new_ms),
{
    match (original_ms, new_ms) {
        (Some(o), Some(n)) => durations_match(o, n),
        _ => false,
    }
}

/// The state that follows `state` on `event`, or `None` where the event has
/// no place in that state.
pub open spec fn transition(state: RemediationState, event: RemediationEvent) -> Option<
    RemediationState,
> {
    match (state, event) {
        (RemediationState::Flagged, RemediationEvent::Begin) => Some(RemediationState::Searching),
        (RemediationState::Searching, RemediationEvent::Matched) => Some(RemediationState::Found),
        (RemediationState::Searching, RemediationEvent::NoMatch) => Some(
            RemediationState::NotFound,
        ),
        (RemediationState::Found, RemediationEvent::StartDownload) => Some(
            RemediationState::Downloading,
        ),
        (RemediationState::NotFound, RemediationEvent::ManualUrl) => Some(
            RemediationState::Downloading,
        ),
        (RemediationState::Downloading, RemediationEvent::DownloadFinished) => Some(
            RemediationState::Downloaded,
        ),
        (RemediationState::Downloading, RemediationEvent::DownloadFailed) => Some(
            RemediationState::Aborted,
        ),
        (RemediationState::Downloaded, RemediationEvent::Durations { original_ms, new_ms }) => Some(
            if probed_match_spec(original_ms, new_ms) {
                RemediationState::DurationMatch
            } else {
                RemediationState::DurationMismatch
            },
        ),
        (RemediationState::DurationMatch, RemediationEvent::Settle { automatic }) => Some(
            if automatic {
                RemediationState::AutoReplaced
            } else {
                RemediationState::AwaitingUserDecision
            },
        ),
        (RemediationState::DurationMismatch, RemediationEvent::Settle { automatic }) => Some(
            RemediationState::AwaitingUserDecision,
        ),
        (RemediationState::AwaitingUserDecision, RemediationEvent::Accept) => Some(
            RemediationState::Accepted,
        ),
        (RemediationState::AwaitingUserDecision, RemediationEvent::Discard) => Some(
            RemediationState::Discarded,
        ),
        (RemediationState::Accepted, RemediationEvent::Revert) => Some(RemediationState::Reverted),
        (RemediationState::AutoReplaced, RemediationEvent::Revert) => Some(
            RemediationState::Reverted,
        ),
        _ => None,
    }
}

/// The state that follows `state` on `event`, or `None` where the event has
/// no place in that state; the attempt then stays where it is.
pub fn next_state(state: RemediationState, event: RemediationEvent) -> (r: Option<
    RemediationState,
>)
    ensures
        r == transition(state, event),
{
    match (state, event) {
        (RemediationState::Flagged, RemediationEvent::Begin) => Some(RemediationState::Searching),
        (RemediationState::Searching, RemediationEvent::Matched) => Some(RemediationState::Found),
        (RemediationState::Searching, RemediationEvent::NoMatch) => Some(
            RemediationState::NotFound,
        ),
        (RemediationState::Found, RemediationEvent::StartDownload) => Some(
            RemediationState::Downloading,
        ),
        (RemediationState::NotFound, RemediationEvent::ManualUrl) => Some(
            RemediationState::Downloading,
        ),
        (RemediationState::Downloading, RemediationEvent::DownloadFinished) => Some(
            RemediationState::Downloaded,
        ),
        (RemediationState::Downloading, RemediationEvent::DownloadFailed) => Some(
            RemediationState::Aborted,
        ),
        (RemediationState::Downloaded, RemediationEvent::Durations { original_ms, new_ms }) => {
            if probed_match(original_ms, new_ms) {
                Some(RemediationState::DurationMatch)
            } else {
                Some(RemediationState::DurationMismatch)
            }
        },
        (RemediationState::DurationMatch, RemediationEvent::Settle { automatic }) => {
            if automatic {
                Some(RemediationState::AutoReplaced)
            } else {
                Some(RemediationState::AwaitingUserDecision)
            }
        },
        (RemediationState::DurationMismatch, RemediationEvent::Settle { automatic: _ }) => Some(
            RemediationState::AwaitingUserDecision,
        ),
        (RemediationState::AwaitingUserDecision, RemediationEvent::Accept) => Some(
            RemediationState::Accepted,
        ),
        (RemediationState::AwaitingUserDecision, RemediationEvent::Discard) => Some(
            RemediationState::Discarded,
        ),
        (RemediationState::Accepted, RemediationEvent::Revert) => Some(RemediationState::Reverted),
        (RemediationState::AutoReplaced, RemediationEvent::Revert) => Some(
            RemediationState::Reverted,
        ),
        _ => None,
    }
}

/// One attempt to replace a flagged file. It lives as long as the attempt,
/// and is kept nowhere.
#[derive(Debug, PartialEq, Eq)]
pub struct RemediationAttempt {
    pub original_path: String,
    pub candidate_url: Option<String>,
    pub downloaded_path: Option<String>,
    pub original_duration_ms: Option<u64>,
    pub new_duration_ms: Option<u64>,
    pub state: RemediationState,
}

impl RemediationAttempt {
    /// An attempt for the flagged file at `original_path`.
    pub fn new(original_path: String) -> (a: RemediationAttempt)
        ensures
            a.original_path == original_path,
            a.candidate_url is None,
            a.downloaded_path is None,
            a.original_duration_ms is None,
            a.new_duration_ms is None,
            a.state == RemediationState::Flagged,
    {
        RemediationAttempt {
            original_path,
            candidate_url: None,
            downloaded_path: None,
            original_duration_ms: None,
            new_duration_ms: None,
            state: RemediationState::Flagged,
        }
    }

    /// Takes note of an event. The attempt moves on where the event has a
    /// place in its state, and keeps the lengths that a probe reported; it
    /// stays as it is where the event has none. The result says whether it
    /// moved.
    pub fn advance(&mut self, event: RemediationEvent) -> (moved: bool)
        ensures
            moved == transition(old(self).state, event) is Some,
            final(self).state == match transition(old(self).state, event) {
                Some(s) => s,
                None => old(self).state,
            },
            final(self).original_path == old(self).original_path,
            final(self).candidate_url == old(self).candidate_url,
            final(self).downloaded_path == old(self).downloaded_path,
            (final(self).original_duration_ms, final(self).new_duration_ms) == (match event {
                RemediationEvent::Durations { original_ms, new_ms } => if moved {
                    (original_ms, new_ms)
                } else {
                    (old(self).original_duration_ms, old(self).new_duration_ms)
                },
                _ => (old(self).original_duration_ms, old(self).new_duration_ms),
            }),
    {
        match next_state(self.state, event) {
            Some(s) => {
                self.state = s;
                if let RemediationEvent::Durations { original_ms, new_ms } = event {
                    self.original_duration_ms = original_ms;
                    self.new_duration_ms = new_ms;
                }
                true
            },
            None => false,
        }
    }
}

/// Whether the original has left its place in `state`.
pub open spec fn original_replaced(state: RemediationState) -> bool {
    state == RemediationState::AutoReplaced || state == RemediationState::Accepted
}

/// Whether an attempt ends in `state`.
pub open spec fn is_terminal(state: RemediationState) -> bool {
    state == RemediationState::Discarded || state == RemediationState::Reverted || state
        == RemediationState::Aborted
}

/// Whether an attempt ends in `state`: no event leads on from it.
pub fn attempt_is_over(state: RemediationState) -> (b: bool)
    ensures
        b == is_terminal(state),
{
    match state {
        RemediationState::Discarded | RemediationState::Reverted | RemediationState::Aborted => true,
        _ => false,
    }
}

/// The original leaves its place by two ways only: without a question after
/// a duration match in automatic mode, or by the user's acceptance. A
/// mismatch never replaces the original by itself, and a failed download
/// never does.
pub proof fn lemma_replacement_is_guarded(state: RemediationState, event: RemediationEvent)
    requires
        transition(state, event) is Some,
        original_replaced(transition(state, event)->0),
    ensures
        (state == RemediationState::DurationMatch && event == (RemediationEvent::Settle {
            automatic: true,
        })) || (state == RemediationState::AwaitingUserDecision && event
            == RemediationEvent::Accept),
{
}

/// Nothing leads on from the end of an attempt, and the original comes back
/// only after it has left its place.
pub proof fn lemma_terminal_states(state: RemediationState, event: RemediationEvent)
    ensures
        is_terminal(state) ==> transition(state, event) is None,
        transition(state, event) == Some(RemediationState::Reverted) ==> original_replaced(state),
{
}

/// The directory that keeps the original of the file at `original`: the
/// backup directory beside the file.
pub open spec fn backup_dir_of(original: Seq<char>, windows: bool) -> Seq<char> {
    parent_prefix(original, windows) + backup_dir()
}

/// The path under which the original of the file at `original` is kept.
pub open spec fn backup_path_of(original: Seq<char>, windows: bool) -> Seq<char> {
    backup_dir_of(original, windows) + seq!['/'] + last_segment(original, windows)
}

/// The directory that keeps the original of the file at `original`.
pub fn backup_dir_path(original: &str, windows: bool) -> (p: String)
    ensures
        p@ == backup_dir_of(original@, windows),
{
    let chars = chars_of(original);
    let start = name_start(&chars, windows);
    let mut p = string_of(&chars, 0, start);
    p.append(backup_dir_name());
    assert(chars@.subrange(0, start as int) =~= parent_prefix(original@, windows));
    p
}

/// The path under which the original of the file at `original` is kept.
pub fn backup_path(original: &str, windows: bool) -> (p: String)
    ensures
        p@ == backup_path_of(original@, windows),
{
    let chars = chars_of(original);
    let start = name_start(&chars, windows);
    let name = string_of(&chars, start, chars.len());
    let mut p = backup_dir_path(original, windows);
    push_char(&mut p, '/');
    p.append(name.as_str());
    assert(chars@.subrange(start as int, chars@.len() as int) =~= last_segment(original@, windows));
    assert(p@ =~= backup_path_of(original@, windows));
    p
}

/// The path beside `original` for a file of the name `file_name`.
pub open spec fn beside(original: Seq<char>, file_name: Seq<char>, windows: bool) -> Seq<char> {
    parent_prefix(original, windows) + last_segment(file_name, windows)
}

/// The path to which a candidate is fetched: beside the original, under the
/// name that the download came with. Of that name only the final component
/// counts, so that no name can lead out of the original's directory.
pub fn download_path(original: &str, file_name: &str, windows: bool) -> (p: String)
    ensures
        p@ == beside(original@, file_name@, windows),
{
    let chars = chars_of(original);
    let start = name_start(&chars, windows);
    let mut p = string_of(&chars, 0, start);
    assert(chars@.subrange(0, start as int) =~= parent_prefix(original@, windows));
    let name_chars = chars_of(file_name);
    let name_from = name_start(&name_chars, windows);
    let name = string_of(&name_chars, name_from, name_chars.len());
    assert(name_chars@.subrange(name_from as int, name_chars@.len() as int) =~= last_segment(
        file_name@, windows,
    ));
    p.append(name.as_str());
    p
}

/// A candidate is fetched into the directory of the original, whatever the
/// name that the download came with.
pub proof fn lemma_download_stays_beside(original: Seq<char>, file_name: Seq<char>, windows: bool)
    ensures
        parent_prefix(beside(original, file_name, windows), windows) == parent_prefix(original, windows),
{
    let dir = parent_prefix(original, windows);
    let name = last_segment(file_name, windows);
    lemma_last_segment_start(original, windows);
    lemma_last_segment_start(file_name, windows);
    let from = crate::paths::last_segment_start(file_name, windows);
    assert forall|i: int| 0 <= i < name.len() implies !crate::paths::is_separator(
        #[trigger] name[i], windows,
    ) by {
        assert(name[i] == file_name[from + i]);
    }
    crate::paths::lemma_start_of_extended(dir, name, windows);
    if dir.len() > 0 {
        assert(dir.last() == original[dir.len() - 1]);
    }
    assert(crate::paths::last_segment_start(dir, windows) == dir.len());
    assert((dir + name).take(dir.len() as int) =~= dir);
}

/// The steps by which an accepted candidate takes the place of the
/// original: the original moves into the backup directory, so that no second
/// copy of it stays in the tree, and the candidate moves to the original's
/// path.
pub open spec fn accept_plan_spec(original: Seq<char>, candidate: Seq<char>, windows: bool) -> Seq<PlanStepView> {
    Seq::<PlanStepView>::empty().push(
        PlanStepView {
            op: FsOpView::CreateDirAll { path: backup_dir_of(original, windows) },
            required: false,
        },
    ).push(
        PlanStepView {
            op: FsOpView::Rename { from: original, to: backup_path_of(original, windows) },
            required: true,
        },
    ).push(PlanStepView { op: FsOpView::Rename { from: candidate, to: original }, required: true })
}

/// The steps by which an accepted candidate takes the place of the
/// original. A failure at step 1 leaves the original where it was; a
/// failure at step 2 leaves the original in the backup directory and its
/// path empty, from where `revert_plan` brings it back.
pub fn accept_plan(original: &str, candidate: &str, windows: bool) -> (plan: Vec<PlanStep>)
    ensures
        plan_view(plan@) == accept_plan_spec(original@, candidate@, windows),
{
    let mut plan: Vec<PlanStep> = Vec::new();
    plan.push(
        PlanStep { op: FsOp::CreateDirAll { path: backup_dir_path(original, windows) }, required: false },
    );
    plan.push(
        PlanStep {
            op: FsOp::Rename { from: original.to_owned(), to: backup_path(original, windows) },
            required: true,
        },
    );
    plan.push(
        PlanStep {
            op: FsOp::Rename { from: candidate.to_owned(), to: original.to_owned() },
            required: true,
        },
    );
    assert(plan_view(plan@) =~= accept_plan_spec(original@, candidate@, windows));
    plan
}

/// How an acceptance ended.
#[derive(Clone, Copy, Debug, PartialEq, Eq, Structural)]
pub enum AcceptOutcome {
    /// The candidate lies at the original's path, the original in the
    /// backup directory.
    Replaced,
    /// The original could not be moved away. Nothing has changed.
    BackupFailed,
    /// The original lies in the backup directory, but the candidate could
    /// not be moved to its path: the path is empty, the candidate is where
    /// it was.
    ReplaceFailed,
}

/// How an acceptance ended, from the index of the required step of
/// `accept_plan` that failed, if one did.
pub fn accept_outcome(failed_step: Option<usize>) -> (r: AcceptOutcome)
    ensures
        r == match failed_step {
            None => AcceptOutcome::Replaced,
            Some(i) => if i <= 1 {
                AcceptOutcome::BackupFailed
            } else {
                AcceptOutcome::ReplaceFailed
            },
        },
{
    match failed_step {
        None => AcceptOutcome::Replaced,
        Some(i) => if i <= 1 {
            AcceptOutcome::BackupFailed
        } else {
            AcceptOutcome::ReplaceFailed
        },
    }
}

/// The steps of a replacement without a question: the original moves into
/// the backup directory where a backup was asked for, and leaves its path in
/// any case. The candidate stays where it was fetched to.
pub open spec fn auto_replace_plan_spec(original: Seq<char>, backup: bool, windows: bool) -> Seq<PlanStepView> {
    (if backup {
        Seq::<PlanStepView>::empty().push(
            PlanStepView {
                op: FsOpView::CreateDirAll { path: backup_dir_of(original, windows) },
                required: false,
            },
        ).push(
            PlanStepView {
                op: FsOpView::Rename { from: original, to: backup_path_of(original, windows) },
                required: true,
            },
        )
    } else {
        Seq::<PlanStepView>::empty()
    }).push(PlanStepView { op: FsOpView::Remove { path: original }, required: false })
}

/// The steps of a replacement without a question.
pub fn auto_replace_plan(original: &str, backup: bool, windows: bool) -> (plan: Vec<PlanStep>)
    ensures
        plan_view(plan@) == auto_replace_plan_spec(original@, backup, windows),
{
    let mut plan: Vec<PlanStep> = Vec::new();
    if backup {
        plan.push(
            PlanStep {
                op: FsOp::CreateDirAll { path: backup_dir_path(original, windows) },
                required: false,
            },
        );
        plan.push(
            PlanStep {
                op: FsOp::Rename { from: original.to_owned(), to: backup_path(original, windows) },
                required: true,
            },
        );
    }
    plan.push(PlanStep { op: FsOp::Remove { path: original.to_owned() }, required: false });
    assert(plan_view(plan@) =~= auto_replace_plan_spec(original@, backup, windows));
    plan
}

/// The step by which a candidate is discarded. The original is not named
/// in it.
pub open spec fn discard_plan_spec(candidate: Seq<char>) -> Seq<PlanStepView> {
    Seq::<PlanStepView>::empty().push(
        PlanStepView { op: FsOpView::Remove { path: candidate }, required: true },
    )
}

/// The step by which a candidate is discarded.
pub fn discard_plan(candidate: &str) -> (plan: Vec<PlanStep>)
    ensures
        plan_view(plan@) == discard_plan_spec(candidate@),
{
    let mut plan: Vec<PlanStep> = Vec::new();
    plan.push(PlanStep { op: FsOp::Remove { path: candidate.to_owned() }, required: true });
    assert(plan_view(plan@) =~= discard_plan_spec(candidate@));
    plan
}

/// The path beside `original` with the same stem and the `i`-th audio
/// extension.
pub open spec fn stray_path(original: Seq<char>, i: int, windows: bool) -> Seq<char> {
    stem_path(original, windows) + seq!['.'] + audio_extensions()[i]
}

/// Whether the `i`-th audio extension gives a stray path of `original`:
/// the original has an extension, and the path is another one than the
/// original's, whatever the case of the ASCII letters.
pub open spec fn is_stray(original: Seq<char>, i: int, windows: bool) -> bool {
    last_segment_dot(original, windows) >= 0 && ascii_lower_seq(stray_path(original, i, windows)) != ascii_lower_seq(
        original,
    )
}

/// The steps that delete the stray paths of `original` among the first `n`
/// audio extensions.
pub open spec fn stray_steps(original: Seq<char>, n: nat, windows: bool) -> Seq<PlanStepView>
    decreases n,
{
    if n == 0 {
        Seq::empty()
    } else {
        let before = stray_steps(original, (n - 1) as nat, windows);
        if is_stray(original, n - 1, windows) {
            before.push(
                PlanStepView {
                    op: FsOpView::Remove { path: stray_path(original, n - 1, windows) },
                    required: false,
                },
            )
        } else {
            before
        }
    }
}

/// The steps by which the original comes back: what lies at its path is
/// deleted, the original moves back from the backup directory, and the
/// files with the same stem and another audio extension are deleted, which
/// a replacement of another format may have left.
pub open spec fn revert_plan_spec(original: Seq<char>, windows: bool) -> Seq<PlanStepView> {
    Seq::<PlanStepView>::empty().push(
        PlanStepView { op: FsOpView::Remove { path: original }, required: false },
    ).push(
        PlanStepView {
            op: FsOpView::Rename { from: backup_path_of(original, windows), to: original },
            required: true,
        },
    ) + stray_steps(original, audio_extensions().len(), windows)
}

/// Why a plan cannot be made.
#[derive(Clone, Copy, Debug, PartialEq, Eq, Structural)]
pub enum RemediationError {
    /// There is no backup of the original to bring back.
    BackupMissing,
}

/// The steps by which the original comes back. `backup_exists` says whether
/// the backup of the original is there; without it nothing is to be done,
/// and nothing is touched.
pub fn revert_plan(original: &str, backup_exists: bool, windows: bool) -> (r: Result<
    Vec<PlanStep>,
    RemediationError,
>)
    ensures
        match r {
            Ok(plan) => backup_exists && plan_view(plan@) == revert_plan_spec(original@, windows),
            Err(e) => !backup_exists && e == RemediationError::BackupMissing,
        },
{
    if !backup_exists {
        return Err(RemediationError::BackupMissing);
    }
    let mut plan: Vec<PlanStep> = Vec::new();
    plan.push(PlanStep { op: FsOp::Remove { path: original.to_owned() }, required: false });
    plan.push(
        PlanStep {
            op: FsOp::Rename { from: backup_path(original, windows), to: original.to_owned() },
            required: true,
        },
    );
    let ghost head = plan_view(plan@);
    assert(head =~= Seq::<PlanStepView>::empty().push(
        PlanStepView { op: FsOpView::Remove { path: original@ }, required: false },
    ).push(
        PlanStepView {
            op: FsOpView::Rename { from: backup_path_of(original@, windows), to: original@ },
            required: true,
        },
    ));
    let chars = chars_of(original);
    let dot = find_extension_dot(&chars, windows);
    let known = known_audio_extensions();
    let low = lower_chars(&chars);
    let mut i: usize = 0;
    while i < known.len()
        invariant
            i <= known@.len(),
            known@.len() == audio_extensions().len(),
            forall|j: int| 0 <= j < known@.len() ==> (#[trigger] known@[j])@ == audio_extensions()[j],
            chars@ == original@,
            low@ == ascii_lower_seq(original@),
            match dot {
                Some(d) => d == last_segment_dot(original@, windows) && d < chars@.len(),
                None => last_segment_dot(original@, windows) == -1,
            },
            plan_view(plan@) == head + stray_steps(original@, i as nat, windows),
        decreases known@.len() - i,
    {
        if let Some(d) = dot {
            let mut stray = string_of(&chars, 0, d);
            push_char(&mut stray, '.');
            stray.append(known[i]);
            assert(stray@ =~= stray_path(original@, i as int, windows));
            let stray_chars = chars_of(stray.as_str());
            let stray_low = lower_chars(&stray_chars);
            if !same_chars(&stray_low, &low) {
                let ghost before = plan_view(plan@);
                plan.push(PlanStep { op: FsOp::Remove { path: stray }, required: false });
                proof {
                    let step = PlanStepView {
                        op: FsOpView::Remove { path: stray_path(original@, i as int, windows) },
                        required: false,
                    };
                    assert(is_stray(original@, i as int, windows));
                    assert(plan_view(plan@) =~= before.push(step));
                    assert(stray_steps(original@, (i + 1) as nat, windows) == stray_steps(
                        original@,
                        i as nat, windows,
                    ).push(step));
                    assert(before.push(step) =~= head + stray_steps(original@, (i + 1) as nat, windows));
                }
            } else {
                assert(!is_stray(original@, i as int, windows));
            }
        } else {
            assert(!is_stray(original@, i as int, windows));
        }
        i = i + 1;
    }
    Ok(plan)
}

/// Deleting the stray paths leaves every other file as it is, adds none,
/// and leaves no stray path behind.
pub proof fn lemma_stray_steps(files: Files, original: Seq<char>, n: nat, windows: bool)
    requires
        n <= audio_extensions().len(),
    ensures
        apply_plan(files, stray_steps(original, n, windows)).contains_key(original) == files.contains_key(
            original,
        ),
        files.contains_key(original) ==> apply_plan(files, stray_steps(original, n, windows))[original]
            == files[original],
        forall|k: Seq<char>| #[trigger]
            apply_plan(files, stray_steps(original, n, windows)).contains_key(k) ==> files.contains_key(k),
        forall|i: int|
            0 <= i < n && is_stray(original, i, windows) ==> !apply_plan(
                files,
                stray_steps(original, n, windows),
            ).contains_key(#[trigger] stray_path(original, i, windows)),
    decreases n,
{
    if n > 0 {
        let before = stray_steps(original, (n - 1) as nat, windows);
        lemma_stray_steps(files, original, (n - 1) as nat, windows);
        if is_stray(original, n - 1, windows) {
            let step = PlanStepView {
                op: FsOpView::Remove { path: stray_path(original, n - 1, windows) },
                required: false,
            };
            lemma_apply_push(files, before, step);
            assert(stray_path(original, n - 1, windows) != original);
        }
    }
}

/// The backup of a file lies at another path than the file.
pub proof fn lemma_backup_path_differs(original: Seq<char>, windows: bool)
    ensures
        backup_path_of(original, windows) != original,
{
    lemma_last_segment_start(original, windows);
    assert(backup_path_of(original, windows).len() == parent_prefix(original, windows).len() + backup_dir().len() + 1
        + last_segment(original, windows).len());
    assert(original.len() == parent_prefix(original, windows).len() + last_segment(original, windows).len());
}

/// Revert undoes Accept. Where the original and the candidate are two files
/// and the candidate does not lie at the backup path, accepting the
/// candidate and then reverting leaves at the original's path the content
/// that lay there before, and leaves neither the backup, nor the candidate,
/// nor a stray file of another audio extension.
pub proof fn lemma_revert_undoes_accept(files: Files, original: Seq<char>, candidate: Seq<char>, windows: bool)
    requires
        files.contains_key(original),
        files.contains_key(candidate),
        original != candidate,
        candidate != backup_path_of(original, windows),
    ensures
        ({
            let accepted = apply_plan(files, accept_plan_spec(original, candidate, windows));
            let reverted = apply_plan(accepted, revert_plan_spec(original, windows));
            &&& accepted.contains_key(original) && accepted[original] == files[candidate]
            &&& accepted.contains_key(backup_path_of(original, windows)) && accepted[backup_path_of(
                original, windows,
            )] == files[original]
            &&& reverted.contains_key(original) && reverted[original] == files[original]
            &&& !reverted.contains_key(backup_path_of(original, windows))
            &&& !reverted.contains_key(candidate)
            &&& forall|i: int|
                0 <= i < audio_extensions().len() && is_stray(original, i, windows)
                    ==> !reverted.contains_key(#[trigger] stray_path(original, i, windows))
        }),
{
    let backup = backup_path_of(original, windows);
    lemma_backup_path_differs(original, windows);
    let s0 = PlanStepView {
        op: FsOpView::CreateDirAll { path: backup_dir_of(original, windows) },
        required: false,
    };
    let s1 = PlanStepView { op: FsOpView::Rename { from: original, to: backup }, required: true };
    let s2 = PlanStepView {
        op: FsOpView::Rename { from: candidate, to: original },
        required: true,
    };
    let e = Seq::<PlanStepView>::empty();
    lemma_apply_push(files, e, s0);
    lemma_apply_push(files, e.push(s0), s1);
    lemma_apply_push(files, e.push(s0).push(s1), s2);
    let accepted = apply_plan(files, accept_plan_spec(original, candidate, windows));
    assert(accepted == files.remove(original).insert(backup, files[original]).remove(
        candidate,
    ).insert(original, files[candidate]));
    let r0 = PlanStepView { op: FsOpView::Remove { path: original }, required: false };
    let r1 = PlanStepView { op: FsOpView::Rename { from: backup, to: original }, required: true };
    lemma_apply_push(accepted, e, r0);
    lemma_apply_push(accepted, e.push(r0), r1);
    let restored = apply_plan(accepted, e.push(r0).push(r1));
    assert(restored == accepted.remove(original).remove(backup).insert(original, files[original]));
    let strays = stray_steps(original, audio_extensions().len(), windows);
    lemma_apply_concat(accepted, e.push(r0).push(r1), strays);
    lemma_stray_steps(restored, original, audio_extensions().len(), windows);
}

/// What separates the segments of a file name.
pub open spec fn segment_separator() -> Seq<char> {
    " - "@
}

/// The text that is searched for, from the name of the flagged file: the
/// first two segments of the name without its extension, with one space
/// between them; the whole of it where it has fewer segments.
pub open spec fn query_text(file_name: Seq<char>, windows: bool) -> Seq<char> {
    let stem = last_segment_stem(file_name, windows);
    let sep = segment_separator();
    match first_index(stem, sep) {
        None => stem,
        Some(i) => {
            let first = stem.take(i);
            let rest = stem.skip(i + sep.len());
            match first_index(rest, sep) {
                None => first + seq![' '] + rest,
                Some(j) => first + seq![' '] + rest.take(j),
            }
        },
    }
}

/// The text that is searched for does not depend on the directories of a
/// path: it is the same for a path and for its final component alone.
pub proof fn lemma_query_ignores_directories(path: Seq<char>, windows: bool)
    ensures
        query_text(path, windows) == query_text(last_segment(path, windows), windows),
{
    let name = last_segment(path, windows);
    let start = crate::paths::last_segment_start(path, windows);
    lemma_last_segment_start(path, windows);
    assert forall|i: int| 0 <= i < name.len() implies !crate::paths::is_separator(
        #[trigger] name[i], windows,
    ) by {
        assert(name[i] == path[start + i]);
    }
    crate::paths::lemma_start_of_extended(Seq::<char>::empty(), name, windows);
    assert(Seq::<char>::empty() + name =~= name);
    assert(crate::paths::last_segment_start(name, windows) == 0);
    assert(last_segment(name, windows) =~= name);
    crate::paths::lemma_last_dot(name);
    assert(last_segment_stem(path, windows) =~= last_segment_stem(name, windows));
}

/// The part `v[from..to]` of a list of characters.
fn slice_of(v: &Vec<char>, from: usize, to: usize) -> (r: Vec<char>)
    requires
        from <= to <= v@.len(),
    ensures
        r@ == v@.subrange(from as int, to as int),
{
    let mut r: Vec<char> = Vec::new();
    let mut i: usize = from;
    while i < to
        invariant
            from <= i <= to <= v@.len(),
            r@ == v@.subrange(from as int, i as int),
        decreases to - i,
    {
        r.push(v[i]);
        i = i + 1;
        assert(v@.subrange(from as int, i as int) =~= v@.subrange(from as int, i - 1).push(
            v@[i - 1],
        ));
    }
    r
}

/// The text that is searched for, from the name of the flagged file. Only
/// the final component of what is handed over counts, so that no directory
/// of the user's tree is handed on.
pub fn search_query(file_name: &str, windows: bool) -> (q: String)
    ensures
        q@ == query_text(file_name@, windows),
{
    let chars = chars_of(file_name);
    let start = name_start(&chars, windows);
    let end = match find_extension_dot(&chars, windows) {
        Some(d) => d,
        None => chars.len(),
    };
    proof {
        lemma_last_segment_start(file_name@, windows);
        crate::paths::lemma_last_segment_dot(file_name@, windows);
    }
    let stem = slice_of(&chars, start, end);
    assert(stem@ =~= last_segment_stem(file_name@, windows));
    let sep = chars_of(" - ");
    match find(&stem, &sep) {
        None => string_of(&stem, 0, stem.len()),
        Some(i) => {
            let rest = slice_of(&stem, i + sep.len(), stem.len());
            assert(rest@ =~= stem@.skip(i + sep@.len()));
            let mut q = string_of(&stem, 0, i);
            push_char(&mut q, ' ');
            let tail = match find(&rest, &sep) {
                None => string_of(&rest, 0, rest.len()),
                Some(j) => string_of(&rest, 0, j),
            };
            q.append(tail.as_str());
            assert(q@ =~= query_text(file_name@, windows));
            q
        },
    }
}

/// What is handed to the search: the query and what the file says of
/// itself. The file's path is no part of it.
#[derive(Debug, PartialEq, Eq)]
pub struct SearchRequest {
    pub query: String,
    pub metadata: ExtractedMetadata,
}

/// What is handed to the search for the file named `file_name`, of which
/// `metadata` was read from the file itself.
pub fn search_request(file_name: &str, metadata: ExtractedMetadata, windows: bool) -> (r: SearchRequest)
    ensures
        r.query@ == query_text(file_name@, windows),
        r.metadata == metadata,
{
    SearchRequest { query: search_query(file_name, windows), metadata }
}

} // verus!
