//! Paths as text.
//!
//! A path is a sequence of characters in which separators part the
//! components: `/` on every system, and `\` as well on Windows. Which system
//! a path belongs to is handed in with the path.
//!
//! Two notions are kept apart. The final component of a path is the one that
//! names the file, as `Path::file_name` of std finds it: separators and `.`
//! components at the end do not count, and a path that ends in `..` names no
//! file. The last segment of a path is what follows its last separator, as it
//! stands. For the path of a file, as a walk of a tree reports it, the two
//! are the same; the last segment is what the rules on backup paths,
//! temporary files and search texts are stated over.
//!
//! A drive or a network share at the start of a Windows path is not told
//! from a component.

use vstd::prelude::*;

verus! {

/// Whether `c` separates two components of a path.
pub open spec fn is_separator(c: char, windows: bool) -> bool {
    c == '/' || (windows && c == '\\')
}

/// Whether `c` separates two components of a path.
pub fn separates(c: char, windows: bool) -> (b: bool)
    ensures
        b == is_separator(c, windows),
{
    c == '/' || (windows && c == '\\')
}

/// The index at which the last segment of `path` starts: just behind the
/// last separator, or 0 where there is none.
pub open spec fn last_segment_start(path: Seq<char>, windows: bool) -> int
    decreases path.len(),
{
    if path.len() == 0 {
        0
    } else if is_separator(path.last(), windows) {
        path.len() as int
    } else {
        last_segment_start(path.drop_last(), windows)
    }
}

/// The last segment of `path`: what follows its last separator. It is empty
/// where the path ends in a separator.
pub open spec fn last_segment(path: Seq<char>, windows: bool) -> Seq<char> {
    path.skip(last_segment_start(path, windows))
}

/// The index of the last `.` of `name`, or -1 where there is none.
pub open spec fn last_dot(name: Seq<char>) -> int
    decreases name.len(),
{
    if name.len() == 0 {
        -1
    } else if name.last() == '.' {
        name.len() - 1
    } else {
        last_dot(name.drop_last())
    }
}

/// The index in `path` of the `.` that starts the extension of its last
/// segment, or -1 where that segment has no extension: it holds no `.`, or
/// its only `.` is its first character.
pub open spec fn last_segment_dot(path: Seq<char>, windows: bool) -> int {
    let d = last_dot(last_segment(path, windows));
    if d <= 0 {
        -1
    } else {
        last_segment_start(path, windows) + d
    }
}

/// `path` without the extension of its last segment and the `.` before it.
pub open spec fn stem_path(path: Seq<char>, windows: bool) -> Seq<char> {
    let d = last_segment_dot(path, windows);
    if d < 0 {
        path
    } else {
        path.take(d)
    }
}

/// The last segment of `path` without its extension.
pub open spec fn last_segment_stem(path: Seq<char>, windows: bool) -> Seq<char> {
    stem_path(path, windows).skip(last_segment_start(path, windows))
}

/// What precedes the last segment of `path`, the separator included.
pub open spec fn parent_prefix(path: Seq<char>, windows: bool) -> Seq<char> {
    path.take(last_segment_start(path, windows))
}

/// Where the final component of `path` lies: the index of its first
/// character and the index behind its last. Separators at the end of the
/// path do not count, nor do components that are a single `.`; a path that
/// ends in `..`, and one without a component, has no final component.
pub open spec fn final_component(path: Seq<char>, windows: bool) -> Option<(int, int)>
    decreases path.len(),
{
    if path.len() == 0 {
        None
    } else if is_separator(path.last(), windows) {
        final_component(path.drop_last(), windows)
    } else {
        let segment = last_segment(path, windows);
        if segment == seq!['.'] {
            final_component(path.drop_last(), windows)
        } else if segment == seq!['.', '.'] {
            None
        } else {
            Some((last_segment_start(path, windows), path.len() as int))
        }
    }
}

/// The name of the file that `path` leads to: its final component.
pub open spec fn file_name(path: Seq<char>, windows: bool) -> Option<Seq<char>> {
    match final_component(path, windows) {
        Some((from, to)) => Some(path.subrange(from, to)),
        None => None,
    }
}

/// The extension of a file name: what follows its last `.`, unless the name
/// holds no `.` or only starts with one.
pub open spec fn name_extension(name: Seq<char>) -> Option<Seq<char>> {
    if last_dot(name) <= 0 {
        None
    } else {
        Some(name.skip(last_dot(name) + 1))
    }
}

/// The extension of the file that `path` leads to, as `Path::extension` of
/// std finds it: that of its final component.
pub open spec fn extension(path: Seq<char>, windows: bool) -> Option<Seq<char>> {
    match file_name(path, windows) {
        Some(name) => name_extension(name),
        None => None,
    }
}

/// The start of the last segment lies in the path, behind a separator or
/// at 0, and no separator follows it.
pub proof fn lemma_last_segment_start(path: Seq<char>, windows: bool)
    ensures
        0 <= last_segment_start(path, windows) <= path.len(),
        last_segment_start(path, windows) > 0 ==> is_separator(
            path[last_segment_start(path, windows) - 1],
            windows,
        ),
        forall|j: int|
            last_segment_start(path, windows) <= j < path.len() ==> !is_separator(
                #[trigger] path[j],
                windows,
            ),
    decreases path.len(),
{
    if path.len() > 0 && !is_separator(path.last(), windows) {
        let p = path.drop_last();
        lemma_last_segment_start(p, windows);
        assert forall|j: int| last_segment_start(path, windows) <= j < path.len() implies !is_separator(
            #[trigger] path[j],
            windows,
        ) by {
            if j < p.len() {
                assert(path[j] == p[j]);
            }
        }
        if last_segment_start(path, windows) > 0 {
            assert(p[last_segment_start(p, windows) - 1] == path[last_segment_start(p, windows) - 1]);
        }
    }
}

/// The last `.` lies in the name where there is one, and none follows it.
pub proof fn lemma_last_dot(name: Seq<char>)
    ensures
        -1 <= last_dot(name) < name.len(),
        last_dot(name) >= 0 ==> name[last_dot(name)] == '.',
        forall|j: int| last_dot(name) < j < name.len() ==> #[trigger] name[j] != '.',
    decreases name.len(),
{
    if name.len() > 0 && name.last() != '.' {
        let p = name.drop_last();
        lemma_last_dot(p);
        assert forall|j: int| last_dot(name) < j < name.len() implies #[trigger] name[j] != '.' by {
            if j < p.len() {
                assert(name[j] == p[j]);
            }
        }
        if last_dot(name) >= 0 {
            assert(p[last_dot(p)] == name[last_dot(p)]);
        }
    }
}

/// The `.` of the extension lies in the last segment, behind its first
/// character.
pub proof fn lemma_last_segment_dot(path: Seq<char>, windows: bool)
    ensures
        last_segment_dot(path, windows) == -1 || last_segment_start(path, windows)
            < last_segment_dot(path, windows) < path.len(),
{
    lemma_last_segment_start(path, windows);
    lemma_last_dot(last_segment(path, windows));
}

/// Characters added behind a path, none of them a separator, stay in its
/// last segment.
pub proof fn lemma_start_of_extended(path: Seq<char>, more: Seq<char>, windows: bool)
    requires
        forall|i: int| 0 <= i < more.len() ==> !is_separator(#[trigger] more[i], windows),
    ensures
        last_segment_start(path + more, windows) == last_segment_start(path, windows),
    decreases more.len(),
{
    if more.len() == 0 {
        assert(path + more =~= path);
    } else {
        let shorter = more.drop_last();
        assert((path + more).drop_last() =~= path + shorter);
        assert((path + more).last() == more[more.len() - 1]);
        lemma_start_of_extended(path, shorter, windows);
    }
}

/// The final component of a path lies in the path, holds no separator, and
/// is neither empty nor `.` nor `..`.
pub proof fn lemma_final_component(path: Seq<char>, windows: bool)
    ensures
        match final_component(path, windows) {
            Some((from, to)) => 0 <= from < to <= path.len() && path.subrange(from, to) != seq!['.']
                && path.subrange(from, to) != seq!['.', '.'] && (forall|j: int|
                from <= j < to ==> !is_separator(#[trigger] path[j], windows)) && (from > 0
                ==> is_separator(path[from - 1], windows)),
            None => true,
        },
    decreases path.len(),
{
    if path.len() > 0 {
        let shorter = path.drop_last();
        lemma_final_component(shorter, windows);
        lemma_last_segment_start(path, windows);
        if is_separator(path.last(), windows) || last_segment(path, windows) == seq!['.'] {
            match final_component(shorter, windows) {
                Some((from, to)) => {
                    assert(path.subrange(from, to) =~= shorter.subrange(from, to));
                    assert forall|j: int| from <= j < to implies !is_separator(
                        #[trigger] path[j],
                        windows,
                    ) by {
                        assert(path[j] == shorter[j]);
                    }
                    if from > 0 {
                        assert(path[from - 1] == shorter[from - 1]);
                    }
                },
                None => {},
            }
        } else if last_segment(path, windows) != seq!['.', '.'] {
            let from = last_segment_start(path, windows);
            assert(path.subrange(from, path.len() as int) =~= last_segment(path, windows));
        }
    }
}

/// For the path of a file, the final component is the last segment: where
/// the last segment is a name, it is the final component.
pub proof fn lemma_file_name_is_last_segment(path: Seq<char>, windows: bool)
    requires
        last_segment(path, windows).len() > 0,
        last_segment(path, windows) != seq!['.'],
        last_segment(path, windows) != seq!['.', '.'],
    ensures
        file_name(path, windows) == Some(last_segment(path, windows)),
        extension(path, windows) == name_extension(last_segment(path, windows)),
{
    lemma_last_segment_start(path, windows);
    let from = last_segment_start(path, windows);
    assert(path.subrange(from, path.len() as int) =~= last_segment(path, windows));
}

/// The start of the segment of `path` that ends at `end`.
pub fn segment_start(path: &Vec<char>, end: usize, windows: bool) -> (i: usize)
    requires
        end <= path@.len(),
    ensures
        i == last_segment_start(path@.take(end as int), windows),
        i <= end,
{
    let ghost whole = path@.take(end as int);
    let mut j: usize = end;
    assert(whole.take(j as int) =~= whole);
    while j > 0
        invariant
            j <= end <= path@.len(),
            whole == path@.take(end as int),
            last_segment_start(whole, windows) == last_segment_start(whole.take(j as int), windows),
        decreases j,
    {
        let c = path[j - 1];
        assert(whole.take(j as int).last() == c);
        if separates(c, windows) {
            return j;
        }
        assert(whole.take(j as int).drop_last() =~= whole.take(j - 1));
        j = j - 1;
    }
    j
}

/// The start of the last segment of `path`.
pub fn name_start(path: &Vec<char>, windows: bool) -> (i: usize)
    ensures
        i == last_segment_start(path@, windows),
        i <= path@.len(),
{
    assert(path@.take(path@.len() as int) =~= path@);
    segment_start(path, path.len(), windows)
}

/// Where the extension of the last segment of `path` starts: the index of
/// its `.`, or `None` where the segment has no extension.
pub fn find_extension_dot(path: &Vec<char>, windows: bool) -> (r: Option<usize>)
    ensures
        match r {
            Some(d) => d == last_segment_dot(path@, windows) && d < path@.len(),
            None => last_segment_dot(path@, windows) == -1,
        },
{
    let start = name_start(path, windows);
    let ghost name = last_segment(path@, windows);
    let mut j: usize = path.len();
    assert(name.take(j - start) =~= name);
    while j > start
        invariant
            start <= j <= path@.len(),
            start == last_segment_start(path@, windows),
            name == last_segment(path@, windows),
            last_dot(name) == last_dot(name.take(j - start)),
        decreases j,
    {
        let c = path[j - 1];
        assert(name.take(j - start).last() == c);
        if c == '.' {
            if j - 1 > start {
                return Some(j - 1);
            } else {
                return None;
            }
        }
        assert(name.take(j - start).drop_last() =~= name.take(j - 1 - start));
        j = j - 1;
    }
    None
}

/// Where the final component of `path` lies, if it has one.
pub fn find_final_component(path: &Vec<char>, windows: bool) -> (r: Option<(usize, usize)>)
    ensures
        match r {
            Some((from, to)) => final_component(path@, windows) == Some((from as int, to as int))
                && from < to <= path@.len(),
            None => final_component(path@, windows) is None,
        },
{
    let mut end: usize = path.len();
    assert(path@.take(end as int) =~= path@);
    while end > 0
        invariant
            end <= path@.len(),
            final_component(path@, windows) == final_component(path@.take(end as int), windows),
        decreases end,
    {
        let ghost head = path@.take(end as int);
        assert(head.last() == path@[end - 1]);
        assert(head.drop_last() =~= path@.take(end - 1));
        if !separates(path[end - 1], windows) {
            let start = segment_start(path, end, windows);
            proof {
                lemma_last_segment_start(head, windows);
                assert(last_segment(head, windows) =~= path@.subrange(start as int, end as int));
            }
            let one = end - start == 1 && path[start] == '.';
            let two = end - start == 2 && path[start] == '.' && path[start + 1] == '.';
            proof {
                let segment = last_segment(head, windows);
                assert(one == (segment == seq!['.'])) by {
                    if one {
                        assert(segment =~= seq!['.']);
                    }
                    if segment == seq!['.'] {
                        assert(segment.len() == 1 && segment[0] == '.');
                    }
                }
                assert(two == (segment == seq!['.', '.'])) by {
                    if two {
                        assert(segment =~= seq!['.', '.']);
                    }
                    if segment == seq!['.', '.'] {
                        assert(segment.len() == 2 && segment[0] == '.' && segment[1] == '.');
                    }
                }
            }
            if two {
                return None;
            }
            if !one {
                return Some((start, end));
            }
        }
        end = end - 1;
    }
    None
}

/// The extension of the file that `path` leads to, if it has one.
#[verifier::loop_isolation(false)]
pub fn extension_chars(path: &Vec<char>, windows: bool) -> (r: Option<Vec<char>>)
    ensures
        match r {
            Some(e) => extension(path@, windows) == Some(e@),
            None => extension(path@, windows) is None,
        },
{
    match find_final_component(path, windows) {
        None => None,
        Some((from, to)) => {
            let ghost name = path@.subrange(from as int, to as int);
            let mut j: usize = to;
            assert(name.take(j - from) =~= name);
            while j > from
                invariant
                    from <= j <= to <= path@.len(),
                    name == path@.subrange(from as int, to as int),
                    last_dot(name) == last_dot(name.take(j - from)),
                decreases j,
            {
                assert(name.take(j - from).last() == path@[j - 1]);
                if path[j - 1] == '.' {
                    if j - 1 == from {
                        return None;
                    }
                    let mut e: Vec<char> = Vec::new();
                    let mut k: usize = j;
                    while k < to
                        invariant
                            j <= k <= to <= path@.len(),
                            e@ == path@.subrange(j as int, k as int),
                        decreases to - k,
                    {
                        e.push(path[k]);
                        k = k + 1;
                        assert(path@.subrange(j as int, k as int) =~= path@.subrange(
                            j as int,
                            k - 1,
                        ).push(path@[k - 1]));
                    }
                    assert(e@ =~= name.skip(j - from));
                    return Some(e);
                }
                assert(name.take(j - from).drop_last() =~= name.take(j - 1 - from));
                j = j - 1;
            }
            None
        },
    }
}

} // verus!
