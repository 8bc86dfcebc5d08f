//! Tag normalization for metric records.
//!
//! Tags derived from host and host-group names drop every space and hyphen
//! and are upper-cased; an empty DNS name is replaced by the sentinel
//! `"None"`.

use vstd::prelude::*;
use vstd::string::StrSliceExecFns;
use vstd::string::StringExecFns;

verus! {

/// Characters that survive tag normalization: everything but spaces
/// and hyphens.
pub open spec fn keep_char(c: char) -> bool {
    c != ' ' && c != '-'
}

/// The characters of `s` with spaces and hyphens removed, in order.
pub open spec fn filter_tag(s: Seq<char>) -> Seq<char>
    decreases s.len(),
{
    if s.len() == 0 {
        Seq::empty()
    } else if keep_char(s.last()) {
        filter_tag(s.drop_last()).push(s.last())
    } else {
        filter_tag(s.drop_last())
    }
}

/// The upper-case equivalent of a character sequence, as `str::to_uppercase`
/// produces it.
pub uninterp spec fn upper_of(s: Seq<char>) -> Seq<char>;

/// Relies on `str::to_uppercase`: the upper-case equivalent of the string
/// by Unicode case mapping, which depends on the characters alone.
#[verifier::external_body]
fn to_upper(s: &str) -> (r: String)
    ensures
        r@ == upper_of(s@),
{
    s.to_uppercase()
}

/// Relies on std's `String::push`: appends exactly the one character.
#[verifier::external_body]
fn push_char(s: &mut String, c: char)
    ensures
        final(s)@ == old(s)@.push(c),
{
    s.push(c);
}

/// The characters of `s` that survive normalization, in order.
pub fn filter_tag_chars(s: &str) -> (kept: String)
    ensures
        kept@ == filter_tag(s@),
{
    let n = s.unicode_len();
    let mut kept = String::new();
    let mut i: usize = 0;
    while i < n
        invariant
            i <= n,
            n == s@.len(),
            kept@ == filter_tag(s@.subrange(0, i as int)),
        decreases n - i,
    {
        let c = s.get_char(i);
        proof {
            assert(s@.subrange(0, i + 1).drop_last() =~= s@.subrange(0, i as int));
            assert(s@.subrange(0, i + 1).last() == s@[i as int]);
        }
        if c != ' ' && c != '-' {
            push_char(&mut kept, c);
        }
        i = i + 1;
    }
    proof {
        assert(s@.subrange(0, n as int) =~= s@);
    }
    kept
}

/// A normalized tag: spaces and hyphens removed, then upper-cased.
pub open spec fn spec_normalize_tag(s: Seq<char>) -> Seq<char> {
    upper_of(filter_tag(s))
}

/// Normalizes a tag value: removes every space and hyphen, then
/// upper-cases the remainder.
pub fn normalize_tag(s: &str) -> (r: String)
    ensures
        r@ == spec_normalize_tag(s@),
{
    let kept = filter_tag_chars(s);
    to_upper(kept.as_str())
}

/// The DNS tag value: the name itself, or the sentinel `"None"` when the
/// name is empty.
pub open spec fn spec_dns_tag(d: Seq<char>) -> Seq<char> {
    if d.len() == 0 {
        "None"@
    } else {
        d
    }
}

/// Replaces an empty DNS name with the sentinel `"None"`; any other name
/// passes through unchanged.
pub fn dns_tag(d: &str) -> (r: String)
    ensures
        r@ == spec_dns_tag(d@),
{
    if d.is_empty() {
        String::from_str("None")
    } else {
        String::from_str(d)
    }
}

} // verus!
