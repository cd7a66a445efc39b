//! Reports of the outside tools as JSON: the members of a document, and the
//! whole number that a JSON number stands for.
//!
//! A document is decoded by the crate serde_json. Of its members this module
//! keeps what the rules of this crate read: names, truth values, texts, and
//! numbers. A number is kept as the 64 bits of its double, and rounded here,
//! in whole-number arithmetic.

use vstd::arithmetic::power2::{
    lemma2_to64, lemma2_to64_rest, lemma_pow2_pos, lemma_pow2_strictly_increases,
    lemma_pow2_unfold, pow2,
};
use vstd::bits::{lemma_u64_shl_is_mul, lemma_u64_shr_is_div};
use vstd::prelude::*;

verus! {

/// The value of a member of a document.
#[derive(Debug, PartialEq, Eq)]
pub enum JsonScalar {
    Null,
    Bool(bool),
    /// A number, as the bits of the double nearest to it; `None` where it
    /// has no double.
    Number { bits: Option<u64> },
    Text(String),
    /// A list or an object, of which nothing is kept.
    Nested,
}

/// The value of a member with its text as a character sequence.
pub enum JsonScalarView {
    Null,
    Bool(bool),
    Number { bits: Option<u64> },
    Text(Seq<char>),
    Nested,
}

impl View for JsonScalar {
    type V = JsonScalarView;

    open spec fn view(&self) -> JsonScalarView {
        match self {
            JsonScalar::Null => JsonScalarView::Null,
            JsonScalar::Bool(b) => JsonScalarView::Bool(*b),
            JsonScalar::Number { bits } => JsonScalarView::Number { bits: *bits },
            JsonScalar::Text(s) => JsonScalarView::Text(s@),
            JsonScalar::Nested => JsonScalarView::Nested,
        }
    }
}

/// What a list of members stands for.
pub open spec fn members_view(members: Seq<(String, JsonScalar)>) -> Seq<
    (Seq<char>, JsonScalarView),
> {
    members.map_values(|m: (String, JsonScalar)| (m.0@, m.1@))
}

/// What decoding gave, with texts as character sequences.
pub open spec fn decoded_view(r: Result<Option<Vec<(String, JsonScalar)>>, String>) -> Result<
    Option<Seq<(Seq<char>, JsonScalarView)>>,
    Seq<char>,
> {
    match r {
        Ok(Some(members)) => Ok(Some(members_view(members@))),
        Ok(None) => Ok(None),
        Err(e) => Err(e@),
    }
}

/// The decoder's complaint about a text that is no JSON; `None` for a text
/// that is JSON.
pub uninterp spec fn json_error(bytes: Seq<u8>) -> Option<Seq<char>>;

/// The members of the value that `pointer` leads to in the document that a
/// JSON text stands for, where that value is an object, each name once;
/// `None` where there is no such value or it is no object. The empty pointer
/// leads to the document itself, `/a/b` to the member `b` of its member `a`.
pub uninterp spec fn json_members(bytes: Seq<u8>, pointer: Seq<char>) -> Option<
    Seq<(Seq<char>, JsonScalarView)>,
>;

/// What decoding a text as JSON gives for the value that `pointer` leads to:
/// the decoder's complaint where the text is no JSON, whatever the pointer;
/// else the members of that value.
pub open spec fn json_decoded(bytes: Seq<u8>, pointer: Seq<char>) -> Result<
    Option<Seq<(Seq<char>, JsonScalarView)>>,
    Seq<char>,
> {
    match json_error(bytes) {
        Some(e) => Err(e),
        None => Ok(json_members(bytes, pointer)),
    }
}

/// Decodes a text as JSON and hands out the members of the object that
/// `pointer` leads to.
///
/// Trusted: `serde_json::from_slice` into a `Value`, which fails or not by
/// the bytes alone, and `Value::pointer` on that value, which depends on
/// the bytes and the pointer alone. The body only sorts each member into the
/// variants of `JsonScalar`: a number by `Number::as_f64` and the bits of
/// that double, a list or an object as `Nested`.
#[verifier::external_body]
pub(crate) fn decode(bytes: &[u8], pointer: &str) -> (r: Result<
    Option<Vec<(String, JsonScalar)>>,
    String,
>)
    ensures
        match json_error(bytes@) {
            Some(e) => r is Err && r->Err_0@ == e,
            None => r is Ok && decoded_view(r) == Ok::<
                Option<Seq<(Seq<char>, JsonScalarView)>>,
                Seq<char>,
            >(json_members(bytes@, pointer@)),
        },
{
    match serde_json::from_slice::<serde_json::Value>(bytes) {
        Err(e) => Err(e.to_string()),
        Ok(doc) => Ok(doc.pointer(pointer).and_then(|v| v.as_object()).map(|m| m.iter().map(|(k, v)| (k.clone(), match v {
            serde_json::Value::Null => JsonScalar::Null,
            serde_json::Value::Bool(b) => JsonScalar::Bool(*b),
            serde_json::Value::Number(n) => JsonScalar::Number { bits: n.as_f64().map(|x| x.to_bits()) },
            serde_json::Value::String(s) => JsonScalar::Text(s.clone()),
            _ => JsonScalar::Nested,
        })).collect())),
    }
}

/// The value of the first member with the name `name`.
pub open spec fn member_of(members: Seq<(Seq<char>, JsonScalarView)>, name: Seq<char>) -> Option<
    JsonScalarView,
>
    decreases members.len(),
{
    if members.len() == 0 {
        None
    } else if members[0].0 == name {
        Some(members[0].1)
    } else {
        member_of(members.drop_first(), name)
    }
}

/// The value of the first member with the name `name`.
pub fn member<'a>(members: &'a Vec<(String, JsonScalar)>, name: &str) -> (r: Option<
    &'a JsonScalar,
>)
    ensures
        match r {
            Some(v) => member_of(members_view(members@), name@) == Some(v@),
            None => member_of(members_view(members@), name@) is None,
        },
{
    let wanted = name.to_owned();
    let ghost all = members_view(members@);
    let mut i: usize = 0;
    assert(all.skip(0) =~= all);
    while i < members.len()
        invariant
            i <= members@.len(),
            all == members_view(members@),
            wanted@ == name@,
            member_of(all, name@) == member_of(all.skip(i as int), name@),
        decreases members@.len() - i,
    {
        assert(all.skip(i as int)[0] == all[i as int]);
        if members[i].0 == wanted {
            return Some(&members[i].1);
        }
        assert(all.skip(i as int).drop_first() =~= all.skip(i + 1));
        i = i + 1;
    }
    None
}

/// The exponent field of a double: bits 52 to 62.
pub open spec fn exponent_field(bits: u64) -> nat {
    (bits as nat / pow2(52)) % 2048
}

/// The fraction field of a double: bits 0 to 51.
pub open spec fn fraction_field(bits: u64) -> nat {
    bits as nat % pow2(52)
}

/// The sign of a double: bit 63.
pub open spec fn sign_bit(bits: u64) -> bool {
    bits as nat >= pow2(63)
}

/// The whole number nearest to a finite double that is not negative, halves
/// going up. A double with the exponent field `e > 0` and the fraction
/// field `f` has the value `(2^52 + f) * 2^(e - 1075)`; one with `e == 0` is
/// less than a half.
pub open spec fn nearest_whole(bits: u64) -> nat {
    let e = exponent_field(bits);
    let m = pow2(52) + fraction_field(bits);
    if e == 0 {
        0
    } else if e >= 1075 {
        m * pow2((e - 1075) as nat)
    } else {
        (m + pow2((1074 - e) as nat)) / pow2((1075 - e) as nat)
    }
}

/// The whole number that a double stands for as a `u32`: the nearest whole
/// number, halves going away from zero, and of that the nearest `u32`. So a
/// negative double gives 0, one beyond the range the greatest `u32`, and
/// one that is no number gives 0.
pub open spec fn double_to_u32(bits: u64) -> u32 {
    if exponent_field(bits) == 2047 {
        if fraction_field(bits) == 0 && !sign_bit(bits) {
            u32::MAX
        } else {
            0
        }
    } else if sign_bit(bits) {
        0
    } else if nearest_whole(bits) > u32::MAX {
        u32::MAX
    } else {
        nearest_whole(bits) as u32
    }
}

/// The whole number that the double with the bits `bits` stands for, as a
/// `u32`.
pub fn round_double_to_u32(bits: u64) -> (r: u32)
    ensures
        r == double_to_u32(bits),
{
    let e: u64 = (bits >> 52) & 0x7ff;
    let f: u64 = bits & 0x000f_ffff_ffff_ffff;
    let negative: bool = (bits >> 63) != 0;
    proof {
        lemma2_to64();
        lemma2_to64_rest();
        lemma_u64_shr_is_div(bits, 52);
        lemma_u64_shr_is_div(bits, 63);
        let hi = bits >> 52;
        assert(hi & 0x7ff == hi % 2048) by (bit_vector);
        assert(bits & 0x000f_ffff_ffff_ffff == bits % 0x10_0000_0000_0000) by (bit_vector);
        assert(e == exponent_field(bits));
        assert(f == fraction_field(bits));
        assert(negative == sign_bit(bits));
        assert(f < 0x10_0000_0000_0000);
    }
    if e == 0x7ff {
        return if f == 0 && !negative {
            u32::MAX
        } else {
            0
        };
    }
    if negative || e == 0 {
        return 0;
    }
    let m: u64 = f + 0x10_0000_0000_0000;
    if e >= 1075 {
        proof {
            lemma_pow2_pos((e - 1075) as nat);
            assert(m * pow2((e - 1075) as nat) >= m) by (nonlinear_arith)
                requires
                    pow2((e - 1075) as nat) >= 1,
                    m >= 0,
            ;
        }
        return u32::MAX;
    }
    let k: u64 = 1075 - e;
    if k >= 54 {
        proof {
            let half: int = pow2((k - 1) as nat) as int;
            let whole: int = m as int;
            if k > 54 {
                lemma_pow2_strictly_increases(53, (k - 1) as nat);
            }
            lemma_pow2_unfold(k as nat);
            assert(pow2(k as nat) == 2 * half);
            assert((whole + half) / (2 * half) == 0) by (nonlinear_arith)
                requires
                    0 <= whole < half,
            ;
        }
        return 0;
    }
    proof {
        lemma_pow2_strictly_increases((k - 1) as nat, 53);
        assert(1 * pow2((k - 1) as nat) <= u64::MAX);
        lemma_u64_shl_is_mul(1, (k - 1) as u64);
    }
    let half: u64 = 1u64 << (k - 1);
    let sum: u64 = m + half;
    let q: u64 = sum >> k;
    proof {
        lemma_u64_shr_is_div(sum, k);
        assert(q == nearest_whole(bits));
    }
    if q > 0xffff_ffff {
        u32::MAX
    } else {
        q as u32
    }
}

} // verus!
