//! Small verified helpers on text, used by the other modules.

use vstd::prelude::*;

verus! {

/// Appends one character to a string.
///
/// Trusted: `String::push` of std adds the character at the end.
#[verifier::external_body]
pub(crate) fn push_char(s: &mut String, c: char)
    ensures
        final(s)@ == old(s)@.push(c),
{
    s.push(c)
}

/// The characters of `s`, in order.
pub fn chars_of(s: &str) -> (v: Vec<char>)
    ensures
        v@ == s@,
{
    let mut v: Vec<char> = Vec::new();
    for c in it: s.chars()
        invariant
            it.seq() == s@,
            v@ == s@.take(it.index() as int),
    {
        v.push(c);
        assert(s@.take(it.index() + 1) =~= s@.take(it.index() as int).push(c));
    }
    v
}

/// The string made of the characters `v[from..to]`.
pub fn string_of(v: &Vec<char>, from: usize, to: usize) -> (s: String)
    requires
        from <= to <= v@.len(),
    ensures
        s@ == v@.subrange(from as int, to as int),
{
    let mut s = String::new();
    let mut i: usize = from;
    while i < to
        invariant
            from <= i <= to <= v@.len(),
            s@ == v@.subrange(from as int, i as int),
        decreases to - i,
    {
        push_char(&mut s, v[i]);
        i = i + 1;
        assert(v@.subrange(from as int, i as int) =~= v@.subrange(from as int, i - 1).push(v@[i - 1]));
    }
    s
}

/// The text `a` followed by the text `b`.
pub fn joined(a: &str, b: &str) -> (s: String)
    ensures
        s@ == a@ + b@,
{
    let mut s = a.to_owned();
    s.append(b);
    s
}

/// The lower-case form of an ASCII capital letter; any other character is
/// left as it is.
pub open spec fn ascii_lower(c: char) -> char {
    if 'A' <= c && c <= 'Z' {
        ((c as u8) + 32) as char
    } else {
        c
    }
}

/// `s` with each ASCII capital letter in lower case.
pub open spec fn ascii_lower_seq(s: Seq<char>) -> Seq<char> {
    s.map_values(|c: char| ascii_lower(c))
}

/// The lower-case form of an ASCII capital letter; any other character is
/// left as it is.
pub fn to_ascii_lower(c: char) -> (r: char)
    ensures
        r == ascii_lower(c),
{
    if 'A' <= c && c <= 'Z' {
        ((c as u8) + 32) as char
    } else {
        c
    }
}

/// `s` with each ASCII capital letter in lower case.
pub fn lower_chars(s: &Vec<char>) -> (r: Vec<char>)
    ensures
        r@ == ascii_lower_seq(s@),
{
    let mut r: Vec<char> = Vec::new();
    let mut k: usize = 0;
    while k < s.len()
        invariant
            k <= s@.len(),
            r@ == ascii_lower_seq(s@.take(k as int)),
        decreases s@.len() - k,
    {
        r.push(to_ascii_lower(s[k]));
        k = k + 1;
        assert(ascii_lower_seq(s@.take(k as int)) =~= ascii_lower_seq(s@.take(k - 1)).push(
            ascii_lower(s@[k - 1]),
        ));
    }
    assert(s@.take(s@.len() as int) =~= s@);
    r
}

/// Whether `needle` stands in `hay` at index `i`.
pub open spec fn occurs_at(hay: Seq<char>, needle: Seq<char>, i: int) -> bool {
    0 <= i && i + needle.len() <= hay.len() && hay.subrange(i, i + needle.len()) == needle
}

/// Whether `needle` stands somewhere in `hay`.
pub open spec fn contains_text(hay: Seq<char>, needle: Seq<char>) -> bool {
    exists|i: int| occurs_at(hay, needle, i)
}

/// Whether `i` is the first index from `from` on at which `needle` stands
/// in `hay`.
pub open spec fn first_occurrence(hay: Seq<char>, needle: Seq<char>, from: int, i: int) -> bool {
    from <= i && occurs_at(hay, needle, i) && forall|j: int|
        from <= j < i ==> !occurs_at(hay, needle, j)
}

/// Whether `needle` stands in `hay` at index `i`.
pub fn matches_at(hay: &Vec<char>, needle: &Vec<char>, i: usize) -> (b: bool)
    ensures
        b == occurs_at(hay@, needle@, i as int),
{
    if needle.len() > hay.len() || i > hay.len() - needle.len() {
        return false;
    }
    let n = hay.len();
    let mut k: usize = 0;
    while k < needle.len()
        invariant
            k <= needle@.len(),
            n == hay@.len(),
            i + needle@.len() <= hay@.len(),
            forall|j: int| 0 <= j < k ==> hay@[i + j] == needle@[j],
        decreases needle@.len() - k,
    {
        if hay[i + k] != needle[k] {
            assert(hay@.subrange(i as int, i + needle@.len())[k as int] != needle@[k as int]);
            return false;
        }
        k = k + 1;
    }
    assert(hay@.subrange(i as int, i + needle@.len()) =~= needle@);
    true
}

/// The first index from `from` on at which `needle` stands in `hay`.
pub fn find_from(hay: &Vec<char>, needle: &Vec<char>, from: usize) -> (r: Option<usize>)
    ensures
        match r {
            Some(i) => first_occurrence(hay@, needle@, from as int, i as int),
            None => forall|j: int| from <= j ==> !occurs_at(hay@, needle@, j),
        },
{
    if needle.len() > hay.len() {
        return None;
    }
    let last = hay.len() - needle.len();
    let mut i: usize = from;
    while i <= last
        invariant
            from <= i,
            last == hay@.len() - needle@.len(),
            forall|j: int| from <= j < i ==> !occurs_at(hay@, needle@, j),
        decreases last + 1 - i,
    {
        if matches_at(hay, needle, i) {
            return Some(i);
        }
        if i == last {
            return None;
        }
        i = i + 1;
    }
    None
}

/// Whether the text `needle` stands somewhere in the text `hay`.
pub fn contains(hay: &str, needle: &str) -> (b: bool)
    ensures
        b == contains_text(hay@, needle@),
{
    let h = chars_of(hay);
    let n = chars_of(needle);
    match find_from(&h, &n, 0) {
        Some(i) => {
            assert(occurs_at(hay@, needle@, i as int));
            true
        },
        None => false,
    }
}

/// The character of a decimal digit.
pub open spec fn digit_char(d: int) -> char {
    (('0' as u8) + d) as char
}

/// `n` written in decimal digits, without sign and without leading zeros.
pub open spec fn decimal_text(n: nat) -> Seq<char>
    decreases n,
{
    if n < 10 {
        seq![digit_char(n as int)]
    } else {
        decimal_text(n / 10).push(digit_char((n % 10) as int))
    }
}

/// Appends `n` in decimal digits to `s`.
pub fn push_decimal(s: &mut String, n: u64)
    ensures
        final(s)@ == old(s)@ + decimal_text(n as nat),
    decreases n,
{
    if n >= 10 {
        push_decimal(s, n / 10);
    }
    let d: u8 = (n % 10) as u8;
    push_char(s, (48u8 + d) as char);
    proof {
        assert('0' as u8 == 48u8);
        assert(final(s)@ =~= old(s)@ + decimal_text(n as nat));
    }
}

/// `n` written in decimal digits.
pub fn decimal(n: u64) -> (s: String)
    ensures
        s@ == decimal_text(n as nat),
{
    let mut s = String::new();
    push_decimal(&mut s, n);
    assert(Seq::<char>::empty() + decimal_text(n as nat) =~= decimal_text(n as nat));
    s
}

/// The character sequences of a list of texts.
pub open spec fn texts(v: Seq<String>) -> Seq<Seq<char>> {
    v.map_values(|s: String| s@)
}

/// The character sequence of an optional text slice.
pub open spec fn opt_str(o: Option<&str>) -> Option<Seq<char>> {
    match o {
        Some(s) => Some(s@),
        None => None,
    }
}

/// Whether two lists hold the same characters.
pub fn same_chars(a: &Vec<char>, b: &Vec<char>) -> (r: bool)
    ensures
        r == (a@ == b@),
{
    if a.len() != b.len() {
        return false;
    }
    let mut i: usize = 0;
    while i < a.len()
        invariant
            i <= a@.len(),
            a@.len() == b@.len(),
            forall|j: int| 0 <= j < i ==> a@[j] == b@[j],
        decreases a@.len() - i,
    {
        if a[i] != b[i] {
            return false;
        }
        i = i + 1;
    }
    assert(a@ =~= b@);
    true
}

/// The first index at which `needle` stands in `hay`, if it stands there.
pub open spec fn first_index(hay: Seq<char>, needle: Seq<char>) -> Option<int> {
    if exists|i: int| first_occurrence(hay, needle, 0, i) {
        Some(choose|i: int| first_occurrence(hay, needle, 0, i))
    } else {
        None
    }
}

/// The first index at which `needle` stands in `hay`, if it stands there.
pub fn find(hay: &Vec<char>, needle: &Vec<char>) -> (r: Option<usize>)
    ensures
        match r {
            Some(i) => first_index(hay@, needle@) == Some(i as int) && i + needle@.len()
                <= hay@.len(),
            None => first_index(hay@, needle@) is None,
        },
{
    match find_from(hay, needle, 0) {
        Some(i) => {
            proof {
                assert(first_occurrence(hay@, needle@, 0, i as int));
                let j = choose|j: int| first_occurrence(hay@, needle@, 0, j);
                assert(first_occurrence(hay@, needle@, 0, j));
                if j < i {
                    assert(!occurs_at(hay@, needle@, j));
                }
                if i < j {
                    assert(!occurs_at(hay@, needle@, i as int));
                }
            }
            Some(i)
        },
        None => {
            assert forall|j: int| !first_occurrence(hay@, needle@, 0, j) by {
                if 0 <= j {
                    assert(!occurs_at(hay@, needle@, j));
                }
            }
            None
        },
    }
}

/// Whether `c` is blank: one of the characters that Unicode calls white
/// space. These are the characters that `char::is_whitespace` of std takes
/// for white space.
pub open spec fn is_blank(c: char) -> bool {
    ('\u{9}' <= c && c <= '\u{d}') || c == ' ' || c == '\u{85}' || c == '\u{a0}' || c
        == '\u{1680}' || ('\u{2000}' <= c && c <= '\u{200a}') || c == '\u{2028}' || c
        == '\u{2029}' || c == '\u{202f}' || c == '\u{205f}' || c == '\u{3000}'
}

/// The index at which the first line of `s` ends: that of its first line
/// feed, or its length.
pub open spec fn line_end(s: Seq<char>) -> int
    decreases s.len(),
{
    if s.len() == 0 {
        0
    } else if s[0] == '\n' {
        0
    } else {
        1 + line_end(s.drop_first())
    }
}

/// `s` without the blanks at its start.
pub open spec fn trim_start(s: Seq<char>) -> Seq<char>
    decreases s.len(),
{
    if s.len() > 0 && is_blank(s[0]) {
        trim_start(s.drop_first())
    } else {
        s
    }
}

/// `s` without the blanks at its end.
pub open spec fn trim_end(s: Seq<char>) -> Seq<char>
    decreases s.len(),
{
    if s.len() > 0 && is_blank(s.last()) {
        trim_end(s.drop_last())
    } else {
        s
    }
}

/// `s` without the blanks around it.
pub open spec fn trimmed(s: Seq<char>) -> Seq<char> {
    trim_end(trim_start(s))
}

/// The first line of `s`, without the blanks around it.
pub open spec fn first_line_trimmed(s: Seq<char>) -> Seq<char> {
    trimmed(s.take(line_end(s)))
}

/// Whether `c` is blank.
pub fn blank(c: char) -> (b: bool)
    ensures
        b == is_blank(c),
{
    ('\u{9}' <= c && c <= '\u{d}') || c == ' ' || c == '\u{85}' || c == '\u{a0}' || c
        == '\u{1680}' || ('\u{2000}' <= c && c <= '\u{200a}') || c == '\u{2028}' || c
        == '\u{2029}' || c == '\u{202f}' || c == '\u{205f}' || c == '\u{3000}'
}

/// The characters `chars[..end]` without the blanks around them.
#[verifier::loop_isolation(false)]
fn trim_prefix(chars: &Vec<char>, end: usize) -> (r: String)
    requires
        end <= chars@.len(),
    ensures
        r@ == trimmed(chars@.take(end as int)),
{
    let ghost line = chars@.take(end as int);
    let mut from: usize = 0;
    assert(line.skip(0) =~= line);
    while from < end && blank(chars[from])
        invariant
            from <= end,
            trim_start(line) == trim_start(line.skip(from as int)),
        decreases end - from,
    {
        assert(line.skip(from as int)[0] == chars@[from as int]);
        assert(line.skip(from as int).drop_first() =~= line.skip(from + 1));
        from = from + 1;
    }
    proof {
        if from < end {
            assert(line.skip(from as int)[0] == chars@[from as int]);
        }
        assert(trim_start(line) == line.skip(from as int));
    }
    let ghost rest = line.skip(from as int);
    let mut to: usize = end;
    assert(rest.take(to - from) =~= rest);
    while to > from && blank(chars[to - 1])
        invariant
            from <= to <= end,
            trim_end(rest) == trim_end(rest.take(to - from)),
        decreases to,
    {
        assert(rest.take(to - from).last() == chars@[to - 1]);
        assert(rest.take(to - from).drop_last() =~= rest.take(to - 1 - from));
        to = to - 1;
    }
    proof {
        if to > from {
            assert(rest.take(to - from).last() == chars@[to - 1]);
        }
        assert(trim_end(rest) == rest.take(to - from));
        assert(rest.take(to - from) =~= chars@.subrange(from as int, to as int));
    }
    string_of(chars, from, to)
}

/// `text` without the blanks around it.
pub fn trim(text: &str) -> (r: String)
    ensures
        r@ == trimmed(text@),
{
    let chars = chars_of(text);
    assert(chars@.take(chars@.len() as int) =~= chars@);
    trim_prefix(&chars, chars.len())
}

/// The first line of `text`, without the blanks around it.
#[verifier::loop_isolation(false)]
pub fn first_line(text: &str) -> (line: String)
    ensures
        line@ == first_line_trimmed(text@),
{
    let chars = chars_of(text);
    let n = chars.len();
    let mut end: usize = 0;
    assert(chars@.skip(0) =~= chars@);
    while end < n && chars[end] != '\n'
        invariant
            end <= n,
            line_end(chars@) == end + line_end(chars@.skip(end as int)),
        decreases n - end,
    {
        assert(chars@.skip(end as int)[0] == chars@[end as int]);
        assert(chars@.skip(end as int).drop_first() =~= chars@.skip(end + 1));
        end = end + 1;
    }
    proof {
        if end < n {
            assert(chars@.skip(end as int)[0] == '\n');
        }
    }
    trim_prefix(&chars, end)
}

} // verus!
