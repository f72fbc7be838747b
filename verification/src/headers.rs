use vstd::prelude::*;

verus! {

use crate::chars::{chars_to_string, str_to_chars};

/// The header fragment for one style entry: inline CSS when it holds a
/// `{`, a stylesheet link otherwise; empty entries render nothing.
pub open spec fn style_entry_of(s: Seq<char>) -> Seq<char> {
    if s.len() == 0 {
        Seq::empty()
    } else if s.contains('{') {
        "<style>"@ + s + "</style>\n"@
    } else {
        "<link type=\"text/css\" rel=\"stylesheet\" href=\""@ + s + "\">\n"@
    }
}

/// The header fragment for one script entry: inline script when it holds
/// a call-like `(` or a statement terminator `;`, a script link
/// otherwise; empty entries render nothing.
pub open spec fn script_entry_of(s: Seq<char>) -> Seq<char> {
    if s.len() == 0 {
        Seq::empty()
    } else if s.contains('(') || s.contains(';') {
        "<script type=\"text/javascript\">"@ + s + "</script>"@
    } else {
        "<script type=\"text/javascript\" src=\""@ + s + "\"></script>"@
    }
}

pub open spec fn style_header_of(ss: Seq<Seq<char>>) -> Seq<char>
    decreases ss.len(),
{
    if ss.len() == 0 {
        Seq::empty()
    } else {
        style_entry_of(ss[0]) + style_header_of(ss.drop_first())
    }
}

pub open spec fn script_header_of(ss: Seq<Seq<char>>) -> Seq<char>
    decreases ss.len(),
{
    if ss.len() == 0 {
        Seq::empty()
    } else {
        script_entry_of(ss[0]) + script_header_of(ss.drop_first())
    }
}

/// An optional entry list abstracted to its character sequences; a
/// missing list stands for no entries.
pub open spec fn entries_view(links: Option<Vec<String>>) -> Seq<Seq<char>> {
    match links {
        Some(v) => v@.map_values(|s: String| s@),
        None => Seq::empty(),
    }
}

pub proof fn lemma_style_header_snoc(ss: Seq<Seq<char>>, x: Seq<char>)
    ensures
        style_header_of(ss.push(x)) == style_header_of(ss) + style_entry_of(x),
    decreases ss,
{
    if ss.len() == 0 {
        assert(ss.push(x)[0] == x);
        assert(ss =~= Seq::<Seq<char>>::empty());
        assert(ss.push(x).drop_first() =~= Seq::<Seq<char>>::empty());
        assert(style_header_of(Seq::<Seq<char>>::empty()) == Seq::<char>::empty());
        assert(style_header_of(ss.push(x)) =~= style_header_of(ss) + style_entry_of(x));
    } else {
        assert(ss.push(x).drop_first() =~= ss.drop_first().push(x));
        lemma_style_header_snoc(ss.drop_first(), x);
        assert(ss.push(x)[0] == ss[0]);
        vstd::seq_lib::lemma_concat_associative(
            style_entry_of(ss[0]),
            style_header_of(ss.drop_first()),
            style_entry_of(x),
        );
        assert(style_header_of(ss.push(x)) =~= style_header_of(ss) + style_entry_of(x));
    }
}

pub proof fn lemma_script_header_snoc(ss: Seq<Seq<char>>, x: Seq<char>)
    ensures
        script_header_of(ss.push(x)) == script_header_of(ss) + script_entry_of(x),
    decreases ss,
{
    if ss.len() == 0 {
        assert(ss.push(x)[0] == x);
        assert(ss =~= Seq::<Seq<char>>::empty());
        assert(ss.push(x).drop_first() =~= Seq::<Seq<char>>::empty());
        assert(script_header_of(Seq::<Seq<char>>::empty()) == Seq::<char>::empty());
        assert(script_header_of(ss.push(x)) =~= script_header_of(ss) + script_entry_of(x));
    } else {
        assert(ss.push(x).drop_first() =~= ss.drop_first().push(x));
        lemma_script_header_snoc(ss.drop_first(), x);
        assert(ss.push(x)[0] == ss[0]);
        vstd::seq_lib::lemma_concat_associative(
            script_entry_of(ss[0]),
            script_header_of(ss.drop_first()),
            script_entry_of(x),
        );
        assert(script_header_of(ss.push(x)) =~= script_header_of(ss) + script_entry_of(x));
    }
}

fn contains_char(v: &Vec<char>, c: char) -> (r: bool)
    ensures
        r == v@.contains(c),
{
    let mut i: usize = 0;
    while i < v.len()
        invariant
            i <= v@.len(),
            forall|j: int| 0 <= j < i ==> v@[j] != c,
        decreases v@.len() - i,
    {
        if v[i] == c {
            return true;
        }
        i = i + 1;
    }
    false
}

/// Render the style header: one fragment per non-empty entry, in order.
pub fn get_html_style_header(style_links: &Option<Vec<String>>) -> (r: String)
    ensures
        r@ == style_header_of(entries_view(*style_links)),
{
    let ghost ev = entries_view(*style_links);
    let mut out: Vec<char> = Vec::new();
    match style_links {
        None => {
            proof {
                assert(out@ =~= style_header_of(ev));
            }
        },
        Some(links) => {
            let mut i: usize = 0;
            proof {
                assert(ev =~= links@.map_values(|s: String| s@));
                assert(ev.subrange(0, 0) =~= Seq::<Seq<char>>::empty());
                assert(out@ =~= style_header_of(ev.subrange(0, 0)));
            }
            while i < links.len()
                invariant
                    i <= links@.len(),
                    ev == links@.map_values(|s: String| s@),
                    ev.len() == links@.len(),
                    out@ == style_header_of(ev.subrange(0, i as int)),
                decreases links@.len() - i,
            {
                let ghost pre = ev.subrange(0, i as int);
                let entry = str_to_chars(links[i].as_str());
                if entry.len() > 0 {
                    if contains_char(&entry, '{') {
                        let mut piece = str_to_chars("<style>");
                        out.append(&mut piece);
                        let mut body = str_to_chars(links[i].as_str());
                        out.append(&mut body);
                        let mut close = str_to_chars("</style>\n");
                        out.append(&mut close);
                    } else {
                        let mut piece = str_to_chars("<link type=\"text/css\" rel=\"stylesheet\" href=\"");
                        out.append(&mut piece);
                        let mut body = str_to_chars(links[i].as_str());
                        out.append(&mut body);
                        let mut close = str_to_chars("\">\n");
                        out.append(&mut close);
                    }
                }
                i = i + 1;
                proof {
                    lemma_style_header_snoc(pre, ev[i - 1]);
                    assert(pre.push(ev[i - 1]) =~= ev.subrange(0, i as int));
                    assert(out@ =~= style_header_of(ev.subrange(0, i as int)));
                }
            }
            proof {
                assert(ev.subrange(0, ev.len() as int) =~= ev);
            }
        },
    }
    chars_to_string(&out)
}

/// Render the script header: one fragment per non-empty entry, in order.
pub fn get_html_script_header(script_links: &Option<Vec<String>>) -> (r: String)
    ensures
        r@ == script_header_of(entries_view(*script_links)),
{
    let ghost ev = entries_view(*script_links);
    let mut out: Vec<char> = Vec::new();
    match script_links {
        None => {
            proof {
                assert(out@ =~= script_header_of(ev));
            }
        },
        Some(links) => {
            let mut i: usize = 0;
            proof {
                assert(ev =~= links@.map_values(|s: String| s@));
                assert(ev.subrange(0, 0) =~= Seq::<Seq<char>>::empty());
                assert(out@ =~= script_header_of(ev.subrange(0, 0)));
            }
            while i < links.len()
                invariant
                    i <= links@.len(),
                    ev == links@.map_values(|s: String| s@),
                    ev.len() == links@.len(),
                    out@ == script_header_of(ev.subrange(0, i as int)),
                decreases links@.len() - i,
            {
                let ghost pre = ev.subrange(0, i as int);
                let entry = str_to_chars(links[i].as_str());
                if entry.len() > 0 {
                    if contains_char(&entry, '(') || contains_char(&entry, ';') {
                        let mut piece = str_to_chars("<script type=\"text/javascript\">");
                        out.append(&mut piece);
                        let mut body = str_to_chars(links[i].as_str());
                        out.append(&mut body);
                        let mut close = str_to_chars("</script>");
                        out.append(&mut close);
                    } else {
                        let mut piece = str_to_chars("<script type=\"text/javascript\" src=\"");
                        out.append(&mut piece);
                        let mut body = str_to_chars(links[i].as_str());
                        out.append(&mut body);
                        let mut close = str_to_chars("\"></script>");
                        out.append(&mut close);
                    }
                }
                i = i + 1;
                proof {
                    lemma_script_header_snoc(pre, ev[i - 1]);
                    assert(pre.push(ev[i - 1]) =~= ev.subrange(0, i as int));
                    assert(out@ =~= script_header_of(ev.subrange(0, i as int)));
                }
            }
            proof {
                assert(ev.subrange(0, ev.len() as int) =~= ev);
            }
        },
    }
    chars_to_string(&out)
}

} // verus!
