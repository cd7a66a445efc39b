//! The provenance marker: a line in a file's comment tag which records that
//! the file was replaced.
//!
//! Reading and writing tags is the caller's business. This module says what
//! the comment becomes when a file is marked, and whether a file's comments
//! carry the marker.

use vstd::prelude::*;
use crate::text::{joined, contains, contains_text, occurs_at, push_char};

verus! {

/// The key of the marker.
pub open spec fn marker_key() -> Seq<char> {
    "KESON_REPLACED"@
}

/// The key of the marker.
pub fn marker_key_str() -> (s: &'static str)
    ensures
        s@ == marker_key(),
{
    "KESON_REPLACED"
}

/// The pattern of a marker in a comment: the key, `=`, and the rest of the
/// line.
pub open spec fn marker_pattern() -> Seq<char> {
    "KESON_REPLACED=[^\\n]*"@
}

/// The form in which the time of a replacement is written.
pub open spec fn timestamp_format() -> Seq<char> {
    "%Y-%m-%d %H:%M:%S"@
}

/// The marker for a replacement at the time `timestamp`.
pub open spec fn marker_text(timestamp: Seq<char>) -> Seq<char> {
    marker_key() + seq!['='] + timestamp
}

/// Where the first match of a pattern lies in a text, as the index of its
/// first character and the index behind its last: `None` where the pattern
/// is no regular expression, `Some(None)` where it matches nowhere.
pub uninterp spec fn regex_first_match(pattern: Seq<char>, text: Seq<char>) -> Option<
    Option<(int, int)>,
>;

/// `text` with the first match of `pattern` replaced by `replacement`, which
/// is put in as it is; `None` where `pattern` does not compile.
///
/// Trusted: `Regex::new` and `Regex::replace` of the crate regex, the
/// replacement wrapped in `NoExpand`. Where the match lies depends on the
/// pattern and the text alone. It lies within the text; what stands before
/// and behind it stays, and a text without a match comes back as it is.
#[verifier::external_body]
fn regex_replace_first(pattern: &str, text: &str, replacement: &str) -> (r: Option<String>)
    ensures
        match regex_first_match(pattern@, text@) {
            None => r is None,
            Some(None) => r is Some && r->0@ == text@,
            Some(Some((start, end))) => 0 <= start <= end <= text@.len() && r is Some && r->0@
                == text@.take(start) + replacement@ + text@.skip(end),
        },
{
    match regex::Regex::new(pattern) {
        Ok(re) => Some(re.replace(text, regex::NoExpand(replacement)).into_owned()),
        Err(_) => None,
    }
}

/// Whether `t` is made of what a time in the form `timestamp_format` is
/// made of: decimal digits, the signs of a year, and the marks between the
/// numbers. Such a text holds no end of line.
pub open spec fn is_time_text(t: Seq<char>) -> bool {
    forall|i: int|
        0 <= i < t.len() ==> ('0' <= #[trigger] t[i] && t[i] <= '9') || t[i] == '-' || t[i] == '+'
            || t[i] == ' ' || t[i] == ':'
}

/// The local time of this moment, written in the form `format`.
///
/// Trusted: `Local::now` and `format` of the crate chrono. Which time is
/// written depends on the clock and on the time zone of the machine. Its
/// form is the documented one: each `%` item of the format gives a number
/// in decimal digits, the year with a sign where it has more than four, and
/// the other characters of the format stand as they are.
#[verifier::external_body]
fn local_time_text(format: &str) -> (r: String)
    requires
        format@ == timestamp_format(),
    ensures
        is_time_text(r@),
{
    chrono::Local::now().format(format).to_string()
}

/// The comment of a file after it was marked at the time `timestamp`.
/// In a comment that holds the key, the first marker, from the key to the
/// end of its line, gives way to the new one; where the key stands without a
/// marker, the comment stays. An empty comment becomes the marker; any other
/// comment gets the marker as a new last line.
pub open spec fn marked_comment_spec(existing: Seq<char>, timestamp: Seq<char>) -> Seq<char> {
    if contains_text(existing, marker_key()) {
        match regex_first_match(marker_pattern(), existing) {
            Some(Some((start, end))) => existing.take(start) + marker_text(timestamp)
                + existing.skip(end),
            _ => existing,
        }
    } else if existing.len() == 0 {
        marker_text(timestamp)
    } else {
        existing + seq!['\n'] + marker_text(timestamp)
    }
}

/// The comment of a file after it was marked at the time `timestamp`.
/// What the comment said besides the marker stays, and the comment holds
/// the key afterwards.
pub fn marked_comment(existing: &str, timestamp: &str) -> (r: String)
    ensures
        r@ == marked_comment_spec(existing@, timestamp@),
        contains_text(r@, marker_key()),
        !contains_text(existing@, marker_key()) ==> r@.len() >= existing@.len() && r@.take(
            existing@.len() as int,
        ) == existing@,
        contains_text(existing@, marker_key()) ==> r@ == existing@ || exists|start: int, end: int|
            0 <= start <= end <= existing@.len() && r@ == existing@.take(start) + marker_text(
                timestamp@,
            ) + existing@.skip(end),
{
    let mut marker = joined(marker_key_str(), "=");
    proof {
        reveal_strlit("=");
        assert("="@ =~= seq!['=']);
    }
    marker.append(timestamp);
    assert(marker@ =~= marker_text(timestamp@));
    if contains(existing, marker_key_str()) {
        match regex_replace_first("KESON_REPLACED=[^\\n]*", existing, marker.as_str()) {
            Some(t) => {
                proof {
                    match regex_first_match(marker_pattern(), existing@) {
                        Some(Some((start, end))) => {
                            assert(t@.subrange(start, start + marker_key().len())
                                =~= marker_key());
                            assert(occurs_at(t@, marker_key(), start));
                        },
                        _ => {},
                    }
                }
                t
            },
            None => existing.to_owned(),
        }
    } else if existing.is_empty() {
        proof {
            lemma_fresh_mark(existing@, timestamp@);
        }
        marker
    } else {
        let mut r = existing.to_owned();
        push_char(&mut r, '\n');
        r.append(marker.as_str());
        assert(r@ =~= existing@ + seq!['\n'] + marker_text(timestamp@));
        proof {
            lemma_fresh_mark(existing@, timestamp@);
        }
        r
    }
}

/// The comment of a file after it was marked now. The time is read from the
/// clock, so the contract speaks of some time text.
pub fn write_replaced_tag(existing: &str) -> (r: String)
    ensures
        exists|timestamp: Seq<char>|
            is_time_text(timestamp) && r@ == marked_comment_spec(existing@, timestamp),
        contains_text(r@, marker_key()),
{
    let now = local_time_text("%Y-%m-%d %H:%M:%S");
    let r = marked_comment(existing, now.as_str());
    assert(is_time_text(now@) && r@ == marked_comment_spec(existing@, now@));
    r
}

/// The tag of a file that carries the marker.
#[derive(Clone, Copy, Debug, PartialEq, Eq, Structural)]
pub enum TagChoice {
    /// The tag that is the main one of the file's format.
    Primary,
    /// The first of the file's tags.
    First,
    /// A tag of the main kind, put in because the file had none.
    Inserted,
    /// None: the format takes no tag, and the file is left as it is.
    Unsupported,
}

/// Which tag carries the marker: the main tag of the file's format where
/// the file has one, else the first tag that it has, else a new tag of the
/// main kind where the format takes one.
pub fn tag_choice(has_primary: bool, has_first: bool, insert_gives_primary: bool) -> (c: TagChoice)
    ensures
        c == if has_primary {
            TagChoice::Primary
        } else if has_first {
            TagChoice::First
        } else if insert_gives_primary {
            TagChoice::Inserted
        } else {
            TagChoice::Unsupported
        },
{
    if has_primary {
        TagChoice::Primary
    } else if has_first {
        TagChoice::First
    } else if insert_gives_primary {
        TagChoice::Inserted
    } else {
        TagChoice::Unsupported
    }
}

/// Whether one of the comments carries the marker.
pub open spec fn is_marked(comments: Seq<Option<String>>) -> bool {
    exists|i: int|
        0 <= i < comments.len() && (#[trigger] comments[i]) is Some && contains_text(
            comments[i]->0@,
            marker_key(),
        )
}

/// Whether a file carries the marker. `comments` holds, for each of the
/// file's tags, its comment if it has one; a file that cannot be read, or
/// whose format has no tags, has none.
pub fn has_replaced_tag(comments: &Vec<Option<String>>) -> (b: bool)
    ensures
        b == is_marked(comments@),
{
    let mut i: usize = 0;
    while i < comments.len()
        invariant
            i <= comments@.len(),
            forall|j: int|
                0 <= j < i ==> !((#[trigger] comments@[j]) is Some && contains_text(
                    comments@[j]->0@,
                    marker_key(),
                )),
        decreases comments@.len() - i,
    {
        if let Some(c) = &comments[i] {
            if contains(c.as_str(), marker_key_str()) {
                return true;
            }
        }
        i = i + 1;
    }
    false
}

/// A comment without the marker carries it after marking, whatever else it
/// says; and what it said stands unchanged at its start.
pub proof fn lemma_fresh_mark(existing: Seq<char>, timestamp: Seq<char>)
    requires
        !contains_text(existing, marker_key()),
    ensures
        contains_text(marked_comment_spec(existing, timestamp), marker_key()),
        marked_comment_spec(existing, timestamp).len() >= existing.len(),
        marked_comment_spec(existing, timestamp).take(existing.len() as int) == existing,
{
    let r = marked_comment_spec(existing, timestamp);
    let at: int = if existing.len() == 0 {
        0
    } else {
        (existing.len() + 1) as int
    };
    assert(r.subrange(at, at + marker_key().len()) =~= marker_key());
    assert(occurs_at(r, marker_key(), at));
    assert(r.take(existing.len() as int) =~= existing);
}

} // verus!
