//! Plans of file operations, and what they do to the files of a tree.
//!
//! Where a function takes `windows`, it says whether the paths are those of
//! a Windows system, on which `\` separates components as `/` does.
//!
//! This module touches no file. It hands out plans, which the caller
//! carries out one step after the other, and it says in a model of the tree
//! what a plan that was carried out has done.

use vstd::prelude::*;
use crate::paths::{
    last_segment_start, find_extension_dot, is_separator, lemma_last_segment_dot,
    lemma_last_segment_start, lemma_start_of_extended, name_start, parent_prefix, stem_path,
};
use crate::text::{chars_of, string_of};

verus! {

/// One operation on files.
#[derive(Debug, PartialEq, Eq)]
pub enum FsOp {
    /// Make the directory, and those above it, unless they are there.
    CreateDirAll { path: String },
    /// Move the file `from` to the path `to`, over what may lie there.
    Rename { from: String, to: String },
    /// Delete the file.
    Remove { path: String },
    /// Write the file with this content, over what may lie there.
    Write { path: String, content: Vec<u8> },
}

/// An operation with its paths as character sequences.
pub enum FsOpView {
    CreateDirAll { path: Seq<char> },
    Rename { from: Seq<char>, to: Seq<char> },
    Remove { path: Seq<char> },
    Write { path: Seq<char>, content: Seq<u8> },
}

impl View for FsOp {
    type V = FsOpView;

    open spec fn view(&self) -> FsOpView {
        match self {
            FsOp::CreateDirAll { path } => FsOpView::CreateDirAll { path: path@ },
            FsOp::Rename { from, to } => FsOpView::Rename { from: from@, to: to@ },
            FsOp::Remove { path } => FsOpView::Remove { path: path@ },
            FsOp::Write { path, content } => FsOpView::Write { path: path@, content: content@ },
        }
    }
}

/// One step of a plan. The steps are carried out in order. Where a required
/// step fails, the plan stops there and the failure is reported with the
/// index of the step; where another step fails, the plan goes on.
#[derive(Debug, PartialEq, Eq)]
pub struct PlanStep {
    pub op: FsOp,
    pub required: bool,
}

/// A step with its paths as character sequences.
pub struct PlanStepView {
    pub op: FsOpView,
    pub required: bool,
}

impl View for PlanStep {
    type V = PlanStepView;

    open spec fn view(&self) -> PlanStepView {
        PlanStepView { op: self.op@, required: self.required }
    }
}

/// A plan with its paths as character sequences.
pub open spec fn plan_view(plan: Seq<PlanStep>) -> Seq<PlanStepView> {
    plan.map_values(|s: PlanStep| s@)
}

/// What lies in the tree: the content of each file by its path.
pub type Files = Map<Seq<char>, Seq<u8>>;

/// The files after an operation that did what it could: a directory holds no
/// content of its own; a file that is moved takes its content along and
/// covers what lay at the new path; a file that is not there is neither
/// moved nor deleted; a file that is written holds what was written.
pub open spec fn apply_op(files: Files, op: FsOpView) -> Files {
    match op {
        FsOpView::CreateDirAll { path } => files,
        FsOpView::Rename { from, to } => if files.contains_key(from) {
            files.remove(from).insert(to, files[from])
        } else {
            files
        },
        FsOpView::Remove { path } => files.remove(path),
        FsOpView::Write { path, content } => files.insert(path, content),
    }
}

/// The files after all steps of a plan, in order.
pub open spec fn apply_plan(files: Files, plan: Seq<PlanStepView>) -> Files
    decreases plan.len(),
{
    if plan.len() == 0 {
        files
    } else {
        apply_op(apply_plan(files, plan.drop_last()), plan.last().op)
    }
}

/// A plan with one more step does what the plan does, and then the step.
pub proof fn lemma_apply_push(files: Files, plan: Seq<PlanStepView>, step: PlanStepView)
    ensures
        apply_plan(files, plan.push(step)) == apply_op(apply_plan(files, plan), step.op),
{
    assert(plan.push(step).drop_last() =~= plan);
}

/// Two plans in a row do what the first does, and then the second.
pub proof fn lemma_apply_concat(files: Files, first: Seq<PlanStepView>, second: Seq<PlanStepView>)
    ensures
        apply_plan(files, first + second) == apply_plan(apply_plan(files, first), second),
    decreases second.len(),
{
    if second.len() == 0 {
        assert(first + second =~= first);
    } else {
        lemma_apply_concat(files, first, second.drop_last());
        assert((first + second).drop_last() =~= first + second.drop_last());
    }
}

/// The path of the temporary file through which the file at `path` is
/// written: the path with `tmp` in place of its extension, or with `.tmp`
/// behind it where that would be the path itself.
pub open spec fn temp_path_of(path: Seq<char>, windows: bool) -> Seq<char> {
    if stem_path(path, windows) + ".tmp"@ == path {
        path + ".tmp"@
    } else {
        stem_path(path, windows) + ".tmp"@
    }
}

/// The path of the temporary file through which the file at `path` is
/// written.
pub fn temp_path(path: &str, windows: bool) -> (t: String)
    ensures
        t@ == temp_path_of(path@, windows),
{
    let chars = chars_of(path);
    let end = match find_extension_dot(&chars, windows) {
        Some(d) => d,
        None => chars.len(),
    };
    let mut t = string_of(&chars, 0, end);
    t.append(".tmp");
    assert(chars@.subrange(0, end as int) =~= stem_path(path@, windows));
    if t == path.to_owned() {
        let mut longer = path.to_owned();
        longer.append(".tmp");
        longer
    } else {
        t
    }
}

/// The temporary file lies in the directory of the file that it stands in
/// for, and is another file.
pub proof fn lemma_temp_path(path: Seq<char>, windows: bool)
    ensures
        parent_prefix(temp_path_of(path, windows), windows) == parent_prefix(path, windows),
        temp_path_of(path, windows) != path,
{
    let start = last_segment_start(path, windows);
    let stem = stem_path(path, windows);
    lemma_last_segment_start(path, windows);
    lemma_last_segment_dot(path, windows);
    let rest = path.skip(stem.len() as int);
    assert(stem + rest =~= path);
    assert forall|i: int| 0 <= i < rest.len() implies !is_separator(#[trigger] rest[i], windows) by {
        assert(rest[i] == path[stem.len() + i]);
    }
    lemma_start_of_extended(stem, rest, windows);
    reveal_strlit(".tmp");
    let suffix = ".tmp"@;
    assert forall|i: int| 0 <= i < suffix.len() implies !is_separator(#[trigger] suffix[i], windows) by {
        assert(suffix =~= seq!['.', 't', 'm', 'p']);
    }
    lemma_start_of_extended(stem, suffix, windows);
    lemma_start_of_extended(path, suffix, windows);
    assert((stem + suffix).take(start) =~= path.take(start));
    assert((path + suffix).take(start) =~= path.take(start));
    assert((path + suffix).len() == path.len() + 4);
}

/// The steps by which a file is written so that a crash leaves it whole:
/// its directory is made, the content goes to the temporary file, and the
/// temporary file takes the place of the file in one step.
pub open spec fn save_plan_spec(path: Seq<char>, content: Seq<u8>, windows: bool) -> Seq<PlanStepView> {
    (if parent_prefix(path, windows).len() > 0 {
        Seq::<PlanStepView>::empty().push(
            PlanStepView { op: FsOpView::CreateDirAll { path: parent_prefix(path, windows) }, required: true },
        )
    } else {
        Seq::<PlanStepView>::empty()
    }).push(
        PlanStepView { op: FsOpView::Write { path: temp_path_of(path, windows), content }, required: true },
    ).push(
        PlanStepView { op: FsOpView::Rename { from: temp_path_of(path, windows), to: path }, required: true },
    )
}

/// The steps by which the file at `path` is written with `content`.
pub fn save_plan(path: &str, content: Vec<u8>, windows: bool) -> (plan: Vec<PlanStep>)
    ensures
        plan_view(plan@) == save_plan_spec(path@, content@, windows),
{
    let chars = chars_of(path);
    let start = name_start(&chars, windows);
    let mut plan: Vec<PlanStep> = Vec::new();
    assert(chars@.subrange(0, start as int) =~= parent_prefix(path@, windows));
    if start > 0 {
        plan.push(
            PlanStep { op: FsOp::CreateDirAll { path: string_of(&chars, 0, start) }, required: true },
        );
    }
    plan.push(PlanStep { op: FsOp::Write { path: temp_path(path, windows), content }, required: true });
    plan.push(
        PlanStep { op: FsOp::Rename { from: temp_path(path, windows), to: path.to_owned() }, required: true },
    );
    assert(plan_view(plan@) =~= save_plan_spec(path@, content@, windows));
    plan
}

/// Writing through the temporary file is safe against a crash. However far
/// the plan has come, and whatever part of the content has reached the
/// temporary file, the file itself is as it was before; once the plan is
/// through, it holds the whole content, and the temporary file is gone.
pub proof fn lemma_save_is_crash_safe(
    files: Files,
    path: Seq<char>,
    content: Seq<u8>,
    steps_done: int,
    written: Seq<u8>, windows: bool,
)
    requires
        0 <= steps_done < save_plan_spec(path, content, windows).len(),
    ensures
        ({
            let plan = save_plan_spec(path, content, windows);
            let crashed = apply_plan(files, plan.take(steps_done));
            let torn = crashed.insert(temp_path_of(path, windows), written);
            let done = apply_plan(files, plan);
            &&& crashed.contains_key(path) == files.contains_key(path)
            &&& files.contains_key(path) ==> crashed[path] == files[path]
            &&& torn.contains_key(path) == files.contains_key(path)
            &&& files.contains_key(path) ==> torn[path] == files[path]
            &&& done.contains_key(path) && done[path] == content
            &&& !done.contains_key(temp_path_of(path, windows))
        }),
{
    lemma_temp_path(path, windows);
    let temp = temp_path_of(path, windows);
    let plan = save_plan_spec(path, content, windows);
    let write = PlanStepView { op: FsOpView::Write { path: temp, content }, required: true };
    let rename = PlanStepView { op: FsOpView::Rename { from: temp, to: path }, required: true };
    let e = Seq::<PlanStepView>::empty();
    if parent_prefix(path, windows).len() > 0 {
        let mkdir = PlanStepView {
            op: FsOpView::CreateDirAll { path: parent_prefix(path, windows) },
            required: true,
        };
        lemma_apply_push(files, e, mkdir);
        lemma_apply_push(files, e.push(mkdir), write);
        lemma_apply_push(files, e.push(mkdir).push(write), rename);
        assert(plan.take(0) =~= e);
        assert(plan.take(1) =~= e.push(mkdir));
        assert(plan.take(2) =~= e.push(mkdir).push(write));
    } else {
        lemma_apply_push(files, e, write);
        lemma_apply_push(files, e.push(write), rename);
        assert(plan.take(0) =~= e);
        assert(plan.take(1) =~= e.push(write));
    }
}

} // verus!
