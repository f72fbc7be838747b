use vstd::prelude::*;

verus! {

use crate::chars::{char_is_space, is_space_char, lower_of, lowercase_chars};

/// `s` with its leading `White_Space` characters removed.
pub open spec fn trim_start_spec(s: Seq<char>) -> Seq<char>
    decreases s.len(),
{
    if s.len() > 0 && is_space_char(s[0]) {
        trim_start_spec(s.drop_first())
    } else {
        s
    }
}

/// `s` with its trailing `White_Space` characters removed.
pub open spec fn trim_end_spec(s: Seq<char>) -> Seq<char>
    decreases s.len(),
{
    if s.len() > 0 && is_space_char(s.last()) {
        trim_end_spec(s.drop_last())
    } else {
        s
    }
}

/// `s` trimmed of whitespace on both sides, as `str::trim` does.
pub open spec fn trim_spec(s: Seq<char>) -> Seq<char> {
    trim_end_spec(trim_start_spec(s))
}

/// Every space character replaced by a hyphen.
pub open spec fn dashes_spec(s: Seq<char>) -> Seq<char> {
    s.map_values(|c: char| if c == ' ' { '-' } else { c })
}

/// The anchor identifier derived from heading text: the text is trimmed,
/// lowercased, and its spaces are replaced by hyphens.
pub open spec fn slug_of(t: Seq<char>) -> Seq<char> {
    dashes_spec(lower_of(trim_spec(t)))
}

pub fn trim_start_chars(v: Vec<char>) -> (r: Vec<char>)
    ensures
        r@ == trim_start_spec(v@),
    decreases v@.len(),
{
    if v.len() > 0 && char_is_space(v[0]) {
        let mut v2 = v;
        v2.remove(0);
        proof {
            assert(v2@ =~= v@.drop_first());
        }
        trim_start_chars(v2)
    } else {
        v
    }
}

pub fn trim_end_chars(v: Vec<char>) -> (r: Vec<char>)
    ensures
        r@ == trim_end_spec(v@),
    decreases v@.len(),
{
    if v.len() > 0 && char_is_space(v[v.len() - 1]) {
        let mut v2 = v;
        v2.pop();
        proof {
            assert(v2@ =~= v@.drop_last());
        }
        trim_end_chars(v2)
    } else {
        v
    }
}

/// Compute the anchor identifier for one run of heading text.
pub fn slug_chars(v: Vec<char>) -> (r: Vec<char>)
    ensures
        r@ == slug_of(v@),
{
    let trimmed = trim_end_chars(trim_start_chars(v));
    let lowered = lowercase_chars(&trimmed);
    let mut r: Vec<char> = Vec::new();
    let mut i: usize = 0;
    while i < lowered.len()
        invariant
            i <= lowered@.len(),
            r@.len() == i,
            forall|j: int|
                0 <= j < i ==> r@[j] == (if lowered@[j] == ' ' {
                    '-'
                } else {
                    lowered@[j]
                }),
        decreases lowered@.len() - i,
    {
        let c = lowered[i];
        if c == ' ' {
            r.push('-');
        } else {
            r.push(c);
        }
        i = i + 1;
    }
    proof {
        assert(r@ =~= dashes_spec(lowered@));
    }
    r
}

/// A slug never contains a space: the space-to-hyphen step replaces every
/// space, so applying it to a slug again changes nothing.
pub proof fn lemma_slug_has_no_space(t: Seq<char>)
    ensures
        forall|i: int| 0 <= i < slug_of(t).len() ==> slug_of(t)[i] != ' ',
        dashes_spec(slug_of(t)) == slug_of(t),
{
    assert(forall|i: int| 0 <= i < slug_of(t).len() ==> slug_of(t)[i] != ' ');
    assert(dashes_spec(slug_of(t)) =~= slug_of(t));
}

/// The slug is deterministic: identical heading text yields the identical
/// anchor identifier, so the table-of-contents links and the injected
/// heading anchors, both derived through `slug_of`, always agree.
pub proof fn lemma_slug_deterministic(t1: Seq<char>, t2: Seq<char>)
    requires
        t1 == t2,
    ensures
        slug_of(t1) == slug_of(t2),
{
}

} // verus!
