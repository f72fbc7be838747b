use vstd::prelude::*;

verus! {

use vstd::seq_lib::lemma_concat_associative;
use crate::chars::{char_is_space, is_space_char, str_to_chars};
use crate::slug::{slug_chars, slug_of};

/// Whether `c` belongs to the Han script.
pub uninterp spec fn is_han(c: char) -> bool;

/// Relies on the regex crate's Unicode script tables, through a match of
/// the single-character string against `\p{Han}`: whether a character is
/// in the Han script is a property of the character alone.
#[verifier::external_body]
pub(crate) fn char_is_han(c: char) -> (r: bool)
    ensures
        r == is_han(c),
{
    let mut buf = [0u8; 4];
    regex::Regex::new(r"\p{Han}").unwrap().is_match(c.encode_utf8(&mut buf))
}

/// Every non-overlapping, leftmost-first occurrence of `pat` replaced by
/// `rep`; the replacement text is never rescanned.
pub open spec fn replace_all_spec(s: Seq<char>, pat: Seq<char>, rep: Seq<char>) -> Seq<char>
    decreases s.len(),
{
    if pat.len() == 0 || s.len() < pat.len() {
        s
    } else if s.subrange(0, pat.len() as int) == pat {
        rep + replace_all_spec(s.skip(pat.len() as int), pat, rep)
    } else {
        seq![s[0]] + replace_all_spec(s.drop_first(), pat, rep)
    }
}

fn starts_with_at(s: &Vec<char>, pat: &Vec<char>, i: usize) -> (r: bool)
    requires
        i + pat@.len() <= s@.len(),
    ensures
        r == (s@.subrange(i as int, i as int + pat@.len() as int) == pat@),
{
    let ghost sub = s@.subrange(i as int, i as int + pat@.len() as int);
    let n = s.len();
    let mut j: usize = 0;
    while j < pat.len()
        invariant
            j <= pat@.len(),
            n == s@.len(),
            i + pat@.len() <= s@.len(),
            sub == s@.subrange(i as int, i as int + pat@.len() as int),
            forall|k: int| 0 <= k < j ==> s@[i + k] == pat@[k],
        decreases pat@.len() - j,
    {
        proof {
            assert(i + j < n);
        }
        if s[i + j] != pat[j] {
            proof {
                assert(sub[j as int] == s@[i + j]);
            }
            return false;
        }
        j = j + 1;
    }
    proof {
        assert(sub =~= pat@);
    }
    true
}

/// Replace every occurrence of `pat` in `s` by `rep`, left to right.
pub fn replace_all(s: &Vec<char>, pat: &Vec<char>, rep: &Vec<char>) -> (r: Vec<char>)
    requires
        pat@.len() > 0,
    ensures
        r@ == replace_all_spec(s@, pat@, rep@),
{
    let mut out: Vec<char> = Vec::new();
    let mut i: usize = 0;
    proof {
        assert(s@.skip(0) =~= s@);
        assert(out@ + replace_all_spec(s@, pat@, rep@) =~= replace_all_spec(s@, pat@, rep@));
    }
    while i < s.len()
        invariant
            i <= s@.len(),
            pat@.len() > 0,
            out@ + replace_all_spec(s@.skip(i as int), pat@, rep@) == replace_all_spec(
                s@,
                pat@,
                rep@,
            ),
        decreases s@.len() - i,
    {
        let ghost suf = s@.skip(i as int);
        let ghost out0 = out@;
        proof {
            assert(suf[0] == s@[i as int]);
        }
        if pat.len() <= s.len() - i && starts_with_at(s, pat, i) {
            proof {
                assert(suf.subrange(0, pat@.len() as int) =~= s@.subrange(
                    i as int,
                    i as int + pat@.len() as int,
                ));
                assert(suf.skip(pat@.len() as int) =~= s@.skip(i as int + pat@.len() as int));
                assert(replace_all_spec(suf, pat@, rep@) == rep@ + replace_all_spec(
                    s@.skip(i as int + pat@.len() as int),
                    pat@,
                    rep@,
                ));
            }
            out.extend_from_slice(rep.as_slice());
            i = i + pat.len();
            proof {
                lemma_concat_associative(
                    out0,
                    rep@,
                    replace_all_spec(s@.skip(i as int), pat@, rep@),
                );
            }
        } else {
            proof {
                if i + pat@.len() <= s@.len() {
                    assert(suf.subrange(0, pat@.len() as int) =~= s@.subrange(
                        i as int,
                        i as int + pat@.len() as int,
                    ));
                } else {
                    assert(suf.len() < pat@.len());
                }
                assert(suf.drop_first() =~= s@.skip(i + 1));
            }
            out.push(s[i]);
            i = i + 1;
            proof {
                assert(out@ =~= out0 + seq![s@[i - 1]]);
                lemma_concat_associative(
                    out0,
                    seq![s@[i - 1]],
                    replace_all_spec(s@.skip(i as int), pat@, rep@),
                );
            }
        }
    }
    proof {
        assert(s@.skip(s@.len() as int) =~= Seq::<char>::empty());
        assert(replace_all_spec(Seq::<char>::empty(), pat@, rep@) == Seq::<char>::empty());
        assert(out@ + Seq::<char>::empty() =~= out@);
    }
    out
}

/// Collapse a single whitespace character standing between two Han
/// characters, leftmost first, until no such triple remains.
pub open spec fn collapse_spec(s: Seq<char>) -> Seq<char>
    decreases s.len(),
{
    if s.len() >= 3 && is_han(s[0]) && is_space_char(s[1]) && is_han(s[2]) {
        seq![s[0]] + collapse_spec(s.skip(2))
    } else if s.len() > 0 {
        seq![s[0]] + collapse_spec(s.drop_first())
    } else {
        Seq::empty()
    }
}

/// Remove renderer-introduced whitespace between adjacent Han characters.
pub fn collapse_cjk(s: &Vec<char>) -> (r: Vec<char>)
    ensures
        r@ == collapse_spec(s@),
{
    let mut out: Vec<char> = Vec::new();
    let mut i: usize = 0;
    proof {
        assert(s@.skip(0) =~= s@);
        assert(out@ + collapse_spec(s@) =~= collapse_spec(s@));
    }
    while i < s.len()
        invariant
            i <= s@.len(),
            out@ + collapse_spec(s@.skip(i as int)) == collapse_spec(s@),
        decreases s@.len() - i,
    {
        let ghost suf = s@.skip(i as int);
        let ghost out0 = out@;
        proof {
            assert(suf[0] == s@[i as int]);
            if suf.len() >= 3 {
                assert(suf[1] == s@[i + 1]);
                assert(suf[2] == s@[i + 2]);
            }
        }
        if s.len() - i > 2 && char_is_han(s[i]) && char_is_space(s[i + 1]) && char_is_han(
            s[i + 2],
        ) {
            proof {
                assert(suf.skip(2) =~= s@.skip(i + 2));
            }
            out.push(s[i]);
            i = i + 2;
        } else {
            proof {
                assert(suf.drop_first() =~= s@.skip(i + 1));
            }
            out.push(s[i]);
            i = i + 1;
        }
        proof {
            assert(out@ =~= out0 + seq![suf[0]]);
            lemma_concat_associative(
                out0,
                seq![suf[0]],
                collapse_spec(s@.skip(i as int)),
            );
        }
    }
    proof {
        assert(s@.skip(s@.len() as int) =~= Seq::<char>::empty());
        assert(out@ + collapse_spec(Seq::<char>::empty()) =~= out@);
    }
    out
}

/// Text that holds no Han character, whitespace, Han character triple
/// anywhere is left byte-for-byte unchanged by the normalization pass:
/// whitespace not flanked by Han characters on both sides is never
/// touched.
pub proof fn lemma_collapse_untouched(s: Seq<char>)
    requires
        forall|i: int|
            0 <= i && i + 2 < s.len() ==> !(is_han(#[trigger] s[i]) && is_space_char(s[i + 1])
                && is_han(s[i + 2])),
    ensures
        collapse_spec(s) == s,
    decreases s.len(),
{
    if s.len() == 0 {
        assert(collapse_spec(s) =~= s);
    } else {
        let d = s.drop_first();
        assert forall|i: int|
            0 <= i && i + 2 < d.len() implies !(is_han(#[trigger] d[i]) && is_space_char(d[i + 1])
            && is_han(d[i + 2])) by {
            assert(d[i] == s[i + 1]);
            assert(d[i + 1] == s[i + 2]);
            assert(d[i + 2] == s[i + 3]);
        }
        lemma_collapse_untouched(d);
        assert(seq![s[0]] + d =~= s);
    }
}

/// Whether `c` is one of the heading-level digits `1` through `6`.
pub open spec fn is_h_digit(c: char) -> bool {
    0x31 <= (c as u32) && (c as u32) <= 0x36
}

/// Whether an untouched heading open tag `<h1>` .. `<h6>` stands at the
/// front of `s`.
pub open spec fn h_tag_at(s: Seq<char>) -> bool {
    s.len() >= 4 && s[0] == '<' && s[1] == 'h' && is_h_digit(s[2]) && s[3] == '>'
}

/// Give the rendered heading open tags their anchors: the k-th bare
/// heading open tag of the page receives the identifier of the k-th
/// heading slot; a slot without captured text leaves its tag untouched.
/// The pairing is positional over the rendered text: the renderer writes
/// one bare `<hN>` open tag per parsed heading, in order, so tag k
/// belongs to heading k. A literal `<h1>`..`<h6>` arriving through a raw
/// HTML block is counted like a rendered heading tag and consumes a
/// slot.
pub open spec fn inject_from(s: Seq<char>, slots: Seq<(u32, Option<Seq<char>>)>) -> Seq<char>
    decreases s.len(),
{
    if h_tag_at(s) {
        if slots.len() > 0 {
            match slots[0].1 {
                Some(t) => seq!['<', 'h', s[2], ' ', 'i', 'd', '=', '"'] + slug_of(t) + seq![
                    '"',
                    '>',
                ] + inject_from(s.skip(4), slots.drop_first()),
                None => s.subrange(0, 4) + inject_from(s.skip(4), slots.drop_first()),
            }
        } else {
            s.subrange(0, 4) + inject_from(s.skip(4), slots)
        }
    } else if s.len() > 0 {
        seq![s[0]] + inject_from(s.drop_first(), slots)
    } else {
        Seq::empty()
    }
}

/// With no heading slots, anchor injection leaves the page untouched.
pub proof fn lemma_inject_no_slots(s: Seq<char>)
    ensures
        inject_from(s, Seq::empty()) == s,
    decreases s.len(),
{
    let slots = Seq::<(u32, Option<Seq<char>>)>::empty();
    if h_tag_at(s) {
        lemma_inject_no_slots(s.skip(4));
        assert(s.subrange(0, 4) + s.skip(4) =~= s);
    } else if s.len() > 0 {
        lemma_inject_no_slots(s.drop_first());
        assert(seq![s[0]] + s.drop_first() =~= s);
    } else {
        assert(inject_from(s, slots) =~= s);
    }
}

fn exec_is_h_digit(c: char) -> (r: bool)
    ensures
        r == is_h_digit(c),
{
    let u = c as u32;
    0x31 <= u && u <= 0x36
}

/// Rewrite each rendered heading open tag with its anchor identifier;
/// the slots come from the parsed headings in document order, and the
/// rewrite pairs them with the page's heading open tags positionally.
pub fn inject_anchor_ids(s: &Vec<char>, slots: &Vec<(u32, Option<String>)>) -> (r: Vec<char>)
    ensures
        r@ == inject_from(s@, crate::events::slot_recs_view(slots@)),
{
    let ghost sv = crate::events::slot_recs_view(slots@);
    let mut out: Vec<char> = Vec::new();
    let mut i: usize = 0;
    let mut k: usize = 0;
    proof {
        assert(sv.len() == slots@.len());
        assert(s@.skip(0) =~= s@);
        assert(sv.skip(0) =~= sv);
        assert(out@ + inject_from(s@, sv) =~= inject_from(s@, sv));
    }
    while i < s.len()
        invariant
            i <= s@.len(),
            k <= slots@.len(),
            sv == crate::events::slot_recs_view(slots@),
            sv.len() == slots@.len(),
            out@ + inject_from(s@.skip(i as int), sv.skip(k as int)) == inject_from(s@, sv),
        decreases s@.len() - i,
    {
        let ghost suf = s@.skip(i as int);
        let ghost rem = sv.skip(k as int);
        let ghost out0 = out@;
        proof {
            assert(suf[0] == s@[i as int]);
            if suf.len() >= 4 {
                assert(suf[1] == s@[i + 1]);
                assert(suf[2] == s@[i + 2]);
                assert(suf[3] == s@[i + 3]);
            }
        }
        let tag_here = s.len() - i > 3 && s[i] == '<' && s[i + 1] == 'h' && exec_is_h_digit(
            s[i + 2],
        ) && s[i + 3] == '>';
        if tag_here && k < slots.len() {
            proof {
                assert(h_tag_at(suf));
                assert(rem[0] == sv[k as int]);
                assert(sv[k as int] == (
                    slots@[k as int].0,
                    match slots@[k as int].1 {
                        Some(t) => Some(t@),
                        None => None,
                    },
                ));
                assert(suf.skip(4) =~= s@.skip(i + 4));
                assert(rem.drop_first() =~= sv.skip(k + 1));
            }
            let ghost emitted: Seq<char>;
            match &slots[k] {
                (_, Some(t)) => {
                    out.push('<');
                    out.push('h');
                    out.push(s[i + 2]);
                    out.push(' ');
                    out.push('i');
                    out.push('d');
                    out.push('=');
                    out.push('"');
                    let mut slug = slug_chars(str_to_chars(t.as_str()));
                    out.append(&mut slug);
                    out.push('"');
                    out.push('>');
                    proof {
                        emitted = seq!['<', 'h', suf[2], ' ', 'i', 'd', '=', '"'] + slug_of(t@)
                            + seq!['"', '>'];
                        assert(out@ =~= out0 + emitted);
                        assert(inject_from(suf, rem) == emitted + inject_from(
                            suf.skip(4),
                            rem.drop_first(),
                        ));
                    }
                },
                (_, None) => {
                    out.push('<');
                    out.push('h');
                    out.push(s[i + 2]);
                    out.push('>');
                    proof {
                        emitted = suf.subrange(0, 4);
                        assert(out@ =~= out0 + emitted);
                        assert(inject_from(suf, rem) == emitted + inject_from(
                            suf.skip(4),
                            rem.drop_first(),
                        ));
                    }
                },
            }
            i = i + 4;
            k = k + 1;
            proof {
                lemma_concat_associative(
                    out0,
                    emitted,
                    inject_from(s@.skip(i as int), sv.skip(k as int)),
                );
            }
        } else if tag_here {
            proof {
                assert(h_tag_at(suf));
                assert(rem =~= Seq::<(u32, Option<Seq<char>>)>::empty());
                assert(suf.skip(4) =~= s@.skip(i + 4));
            }
            out.push('<');
            out.push('h');
            out.push(s[i + 2]);
            out.push('>');
            i = i + 4;
            proof {
                assert(out@ =~= out0 + suf.subrange(0, 4));
                lemma_concat_associative(
                    out0,
                    suf.subrange(0, 4),
                    inject_from(s@.skip(i as int), sv.skip(k as int)),
                );
            }
        } else {
            proof {
                assert(!h_tag_at(suf));
                assert(suf.drop_first() =~= s@.skip(i + 1));
            }
            out.push(s[i]);
            i = i + 1;
            proof {
                assert(out@ =~= out0 + seq![suf[0]]);
                lemma_concat_associative(
                    out0,
                    seq![suf[0]],
                    inject_from(s@.skip(i as int), sv.skip(k as int)),
                );
            }
        }
    }
    proof {
        assert(s@.skip(s@.len() as int) =~= Seq::<char>::empty());
        assert(inject_from(Seq::<char>::empty(), sv.skip(k as int)) == Seq::<char>::empty());
        assert(out@ + Seq::<char>::empty() =~= out@);
    }
    out
}

} // verus!
