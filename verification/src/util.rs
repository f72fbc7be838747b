use vstd::prelude::*;

verus! {

use vstd::slice::{slice_index_get, slice_subrange};
use vstd::std_specs::cmp::PartialEqSpec;

/// Splitting state over a slice, with another slice as the delimiter.
pub struct SplitSubsequence<'a, 'b, T> {
    pub slice: &'a [T],
    pub needle: &'b [T],
    pub ended: bool,
}

/// Whether the delimiter matches inside `s` at position `p`, element by
/// element under the `PartialEq` specification of `T`.
pub open spec fn match_at<T: PartialEq>(s: Seq<T>, needle: Seq<T>, p: int) -> bool {
    forall|j: int| 0 <= j < needle.len() ==> s[p + j].eq_spec(&needle[j])
}

/// Whether `p` is the leftmost delimiter match inside `s`.
pub open spec fn is_first_match<T: PartialEq>(s: Seq<T>, needle: Seq<T>, p: int) -> bool {
    &&& 0 <= p
    &&& p + needle.len() <= s.len()
    &&& match_at(s, needle, p)
    &&& forall|q: int| 0 <= q < p ==> !match_at(s, needle, q)
}

impl<'a, 'b, T: PartialEq> SplitSubsequence<'a, 'b, T> {
    /// Hand out the piece before the next delimiter, or the rest of the
    /// slice when no delimiter remains; an emptied slice yields one final
    /// empty piece. After a piece with no delimiter, the state keeps the
    /// slice's last element rather than ending.
    pub fn next(&mut self) -> (r: Option<&'a [T]>)
        requires
            old(self).ended || old(self).slice@.len() == 0 || old(self).needle@.len() > 0,
        ensures
            final(self).needle@ == old(self).needle@,
            old(self).ended ==> r is None && final(self).ended && final(self).slice@
                == old(self).slice@,
            !old(self).ended && old(self).slice@.len() == 0 ==> (r matches Some(v) && v@.len()
                == 0) && final(self).ended,
            T::obeys_eq_spec() && !old(self).ended && old(self).slice@.len() > 0 ==> ({
                let s = old(self).slice@;
                let nd = old(self).needle@;
                &&& !final(self).ended
                &&& if exists|p: int| is_first_match(s, nd, p) {
                    let p = choose|p: int| is_first_match(s, nd, p);
                    (r matches Some(v) && v@ == s.subrange(0, p)) && final(self).slice@ == s.skip(
                        p + nd.len(),
                    )
                } else {
                    (r matches Some(v) && v@ == s) && final(self).slice@ == s.skip(s.len() - 1)
                }
            }),
    {
        if self.ended {
            None
        } else if self.slice.is_empty() {
            self.ended = true;
            Some(self.slice)
        } else {
            let n = self.slice.len();
            let m = self.needle.len();
            let ghost s = self.slice@;
            let ghost nd = self.needle@;
            let mut p: usize = 0;
            while m <= n - p && p <= n
                invariant
                    n == s.len(),
                    m == nd.len(),
                    m > 0,
                    n > 0,
                    0 <= p <= n,
                    s == self.slice@,
                    nd == self.needle@,
                    s == old(self).slice@,
                    nd == old(self).needle@,
                    !self.ended,
                    !old(self).ended,
                    T::obeys_eq_spec() ==> forall|q: int| 0 <= q < p ==> !match_at(s, nd, q),
                decreases n - p,
            {
                let mut j: usize = 0;
                let mut hit = true;
                while j < m
                    invariant
                        n == s.len(),
                        m == nd.len(),
                        0 <= p,
                        p + m <= n,
                        j <= m,
                        s == self.slice@,
                        nd == self.needle@,
                        hit || j == m,
                        T::obeys_eq_spec() ==> (hit <==> forall|k: int|
                            0 <= k < j ==> s[p + k].eq_spec(&nd[k])),
                    decreases m - j,
                {
                    let a = slice_index_get(self.slice, p + j);
                    let b = slice_index_get(self.needle, j);
                    if !(*a == *b) {
                        hit = false;
                        j = m;
                    } else {
                        proof {
                            if T::obeys_eq_spec() {
                                assert(forall|k: int|
                                    0 <= k < j + 1 ==> s[p + k].eq_spec(&nd[k]));
                            }
                        }
                        j = j + 1;
                    }
                }
                if hit {
                    proof {
                        if T::obeys_eq_spec() {
                            assert(match_at(s, nd, p as int));
                            assert(is_first_match(s, nd, p as int));
                        }
                    }
                    let item = slice_subrange(self.slice, 0, p);
                    self.slice = slice_subrange(self.slice, p + m, n);
                    proof {
                        if T::obeys_eq_spec() {
                            let p2 = choose|q: int| is_first_match(s, nd, q);
                            assert(is_first_match(s, nd, p2));
                            assert(p2 == p as int);
                            assert(self.slice@ =~= s.skip(p + m));
                        }
                    }
                    return Some(item);
                }
                p = p + 1;
            }
            let item = self.slice;
            proof {
                if T::obeys_eq_spec() {
                    assert forall|q: int| 0 <= q implies !is_first_match(s, nd, q) by {
                        if q < p {
                            assert(!match_at(s, nd, q));
                        } else {
                            assert(q + nd.len() > s.len());
                        }
                    }
                }
            }
            self.slice = slice_subrange(self.slice, n - 1, n);
            proof {
                assert(self.slice@ =~= s.skip(s.len() - 1));
            }
            Some(item)
        }
    }
}

/// Split `slice` at each occurrence of `needle`.
pub fn split_subsequence<'a, 'b, T: PartialEq>(slice: &'a [T], needle: &'b [T]) -> (r:
    SplitSubsequence<'a, 'b, T>)
    ensures
        r.slice@ == slice@,
        r.needle@ == needle@,
        !r.ended,
{
    SplitSubsequence { slice, needle, ended: false }
}

} // verus!
