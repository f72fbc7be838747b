use vstd::prelude::*;

verus! {

use crate::chars::{chars_to_string, str_to_chars};
use crate::events::{
    events_of,
    events_ext_of,
    extract_from,
    extract_headings,
    first_text,
    get_title,
    get_toc_list,
    heading_slots,
    html_ext_of,
    render_html_ext,
    slots_from,
    slots_of,
    MdEventV,
    ScanState,
};
use crate::slug::slug_of;
use crate::textpass::{
    collapse_cjk,
    collapse_spec,
    h_tag_at,
    inject_anchor_ids,
    inject_from,
    is_h_digit,
    lemma_inject_no_slots,
    replace_all,
    replace_all_spec,
};
use crate::toc::{
    items_view,
    lemma_items_view,
    order_spec,
    order_toc_list,
    render_items,
    render_one,
    render_toc,
    OutlineV,
};
use crate::version::{get_file_git_version, is_version_annotation};

/// The inner list of the table of contents: when the outline has a single
/// root, that root's children are rendered directly, so a lone top-level
/// title is not repeated inside its own table of contents.
pub open spec fn toc_inner_of(evs: Seq<MdEventV>) -> Seq<char> {
    let trees = order_spec(extract_headings(evs));
    if trees.len() == 1 {
        render_items(trees[0].children)
    } else {
        render_items(trees)
    }
}

/// The table-of-contents block substituted for the `[TOC]` marker.
pub open spec fn toc_of(evs: Seq<MdEventV>) -> Seq<char> {
    "<div class='toc'>\n"@ + "<div class=\"toc-aux\">"@ + toc_inner_of(evs) + "</div>\n"@
        + "</div>\n"@
}

/// Build the table-of-contents block for a document.
pub fn get_table_of_contents(contents: &str) -> (r: String)
    ensures
        r@ == toc_of(events_of(contents@)),
{
    let toc_list = get_toc_list(contents);
    let trees = order_toc_list(toc_list);
    proof {
        lemma_items_view(trees@);
    }
    let inner: String = if trees.len() == 1 {
        proof {
            lemma_items_view(trees@[0].children@);
            assert(items_view(trees@)[0] == crate::toc::item_view(trees@[0]));
        }
        render_toc(&trees[0].children)
    } else {
        render_toc(&trees)
    };
    let mut out = str_to_chars("<div class='toc'>\n");
    let mut open_aux = str_to_chars("<div class=\"toc-aux\">");
    out.append(&mut open_aux);
    let mut body = str_to_chars(inner.as_str());
    out.append(&mut body);
    let mut close_a = str_to_chars("</div>\n");
    out.append(&mut close_a);
    let mut close_b = str_to_chars("</div>\n");
    out.append(&mut close_b);
    proof {
        assert(out@ =~= toc_of(events_of(contents@)));
    }
    chars_to_string(&out)
}

/// Whether `c` is one of the annotated heading-level digits `1`
/// through `5`.
pub open spec fn is_h5_digit(c: char) -> bool {
    0x31 <= (c as u32) && (c as u32) <= 0x35
}

/// Whether a closing heading tag `</h1>` .. `</h5>` stands at the front
/// of `s`.
pub open spec fn close_tag_at(s: Seq<char>) -> bool {
    s.len() >= 5 && s[0] == '<' && s[1] == '/' && s[2] == 'h' && is_h5_digit(s[3]) && s[4] == '>'
}

/// One left-to-right pass that puts a space and the version marker after
/// each closing heading tag of levels one through five; what was written
/// is never rescanned, so a marker that itself holds such a tag is left
/// alone.
pub open spec fn insert_markers_spec(s: Seq<char>, v: Seq<char>) -> Seq<char>
    decreases s.len(),
{
    if close_tag_at(s) {
        s.subrange(0, 5) + seq![' '] + v + insert_markers_spec(s.skip(5), v)
    } else if s.len() > 0 {
        seq![s[0]] + insert_markers_spec(s.drop_first(), v)
    } else {
        Seq::empty()
    }
}

/// The version marker inserted after every closing heading tag of levels
/// one through five; an empty marker leaves the page untouched.
pub open spec fn insert_version_spec(s: Seq<char>, v: Seq<char>) -> Seq<char> {
    if v.len() == 0 {
        s
    } else {
        insert_markers_spec(s, v)
    }
}

fn exec_is_h5_digit(c: char) -> (r: bool)
    ensures
        r == is_h5_digit(c),
{
    let u = c as u32;
    0x31 <= u && u <= 0x35
}

/// Append the version marker after every closing heading tag.
pub fn insert_after_headings(h: Vec<char>, version: &str) -> (r: Vec<char>)
    ensures
        r@ == insert_version_spec(h@, version@),
{
    if version.is_empty() {
        return h;
    }
    let s = h;
    let vs = str_to_chars(version);
    let mut out: Vec<char> = Vec::new();
    let mut i: usize = 0;
    proof {
        assert(s@.skip(0) =~= s@);
        assert(out@ + insert_markers_spec(s@, version@) =~= insert_markers_spec(s@, version@));
    }
    while i < s.len()
        invariant
            i <= s@.len(),
            vs@ == version@,
            out@ + insert_markers_spec(s@.skip(i as int), version@) == insert_markers_spec(
                s@,
                version@,
            ),
        decreases s@.len() - i,
    {
        let ghost suf = s@.skip(i as int);
        let ghost out0 = out@;
        proof {
            assert(suf[0] == s@[i as int]);
            if suf.len() >= 5 {
                assert(suf[1] == s@[i + 1]);
                assert(suf[2] == s@[i + 2]);
                assert(suf[3] == s@[i + 3]);
                assert(suf[4] == s@[i + 4]);
            }
        }
        let tag = s.len() - i > 4 && s[i] == '<' && s[i + 1] == '/' && s[i + 2] == 'h'
            && exec_is_h5_digit(s[i + 3]) && s[i + 4] == '>';
        if tag {
            proof {
                assert(close_tag_at(suf));
                assert(suf.skip(5) =~= s@.skip(i + 5));
            }
            out.push(s[i]);
            out.push(s[i + 1]);
            out.push(s[i + 2]);
            out.push(s[i + 3]);
            out.push(s[i + 4]);
            out.push(' ');
            out.extend_from_slice(vs.as_slice());
            i = i + 5;
            proof {
                assert(out@ =~= out0 + (suf.subrange(0, 5) + seq![' '] + version@));
                vstd::seq_lib::lemma_concat_associative(
                    out0,
                    suf.subrange(0, 5) + seq![' '] + version@,
                    insert_markers_spec(s@.skip(i as int), version@),
                );
                assert(insert_markers_spec(suf, version@) == suf.subrange(0, 5) + seq![' ']
                    + version@ + insert_markers_spec(s@.skip(i as int), version@));
                vstd::seq_lib::lemma_concat_associative(
                    suf.subrange(0, 5) + seq![' '] + version@,
                    insert_markers_spec(s@.skip(i as int), version@),
                    Seq::<char>::empty(),
                );
                assert(out@ + insert_markers_spec(s@.skip(i as int), version@)
                    =~= insert_markers_spec(s@, version@));
            }
        } else {
            proof {
                assert(!close_tag_at(suf));
                assert(suf.drop_first() =~= s@.skip(i + 1));
            }
            out.push(s[i]);
            i = i + 1;
            proof {
                assert(out@ =~= out0 + seq![suf[0]]);
                vstd::seq_lib::lemma_concat_associative(
                    out0,
                    seq![suf[0]],
                    insert_markers_spec(s@.skip(i as int), version@),
                );
            }
        }
    }
    proof {
        assert(s@.skip(s@.len() as int) =~= Seq::<char>::empty());
        assert(insert_markers_spec(Seq::<char>::empty(), version@) == Seq::<char>::empty());
        assert(out@ + Seq::<char>::empty() =~= out@);
    }
    out
}

/// The document body: the rendered page with anchors injected, CJK
/// whitespace collapsed, the `[TOC]` paragraph replaced by the rendered
/// table of contents, and the version marker appended to headings.
pub open spec fn body_of(src: Seq<char>, v: Seq<char>) -> Seq<char> {
    insert_version_spec(
        replace_all_spec(
            collapse_spec(inject_from(html_ext_of(src), slots_of(events_ext_of(src)))),
            "<p>[TOC]</p>"@,
            toc_of(events_of(src)),
        ),
        v,
    )
}

/// The finished page: document shell, title, headers, and the body
/// wrapped in the configured container class.
pub open spec fn page_of(
    src: Seq<char>,
    v: Seq<char>,
    css: Seq<char>,
    style: Seq<char>,
    script: Seq<char>,
) -> Seq<char> {
    "<!DOCTYPE html>\n<html>\n<head>\n<meta charset=\"UTF-8\">\n<title>"@ + first_text(
        events_of(src),
    ) + "</title>\n"@ + style + "\n"@ + script + "\n</head>\n<body>"@ + "<div class=\""@ + css
        + "\">"@ + body_of(src, v) + "</div>"@ + "</body>"@
}

/// Render one document with a given version marker.
pub fn compose_page(
    contents: &str,
    version: &str,
    css_class: &str,
    style_header: &str,
    script_header: &str,
) -> (r: String)
    ensures
        r@ == page_of(contents@, version@, css_class@, style_header@, script_header@),
{
    let html = render_html_ext(contents);
    let h0 = str_to_chars(html.as_str());
    let slots = heading_slots(contents);
    let h1 = inject_anchor_ids(&h0, &slots);
    let h2 = collapse_cjk(&h1);
    let toc = get_table_of_contents(contents);
    let pat = str_to_chars("<p>[TOC]</p>");
    proof {
        reveal_strlit("<p>[TOC]</p>");
    }
    let rep = str_to_chars(toc.as_str());
    let h3 = replace_all(&h2, &pat, &rep);
    let body = insert_after_headings(h3, version);
    let title = get_title(contents);
    let mut out = str_to_chars("<!DOCTYPE html>\n<html>\n<head>\n<meta charset=\"UTF-8\">\n<title>");
    let mut t = str_to_chars(title.as_str());
    out.append(&mut t);
    let mut p1 = str_to_chars("</title>\n");
    out.append(&mut p1);
    let mut st = str_to_chars(style_header);
    out.append(&mut st);
    let mut p2 = str_to_chars("\n");
    out.append(&mut p2);
    let mut sc = str_to_chars(script_header);
    out.append(&mut sc);
    let mut p3 = str_to_chars("\n</head>\n<body>");
    out.append(&mut p3);
    let mut p4 = str_to_chars("<div class=\"");
    out.append(&mut p4);
    let mut cs = str_to_chars(css_class);
    out.append(&mut cs);
    let mut p5 = str_to_chars("\">");
    out.append(&mut p5);
    let mut bd = body;
    out.append(&mut bd);
    let mut p6 = str_to_chars("</div>");
    out.append(&mut p6);
    let mut p7 = str_to_chars("</body>");
    out.append(&mut p7);
    proof {
        assert(out@ =~= page_of(
            contents@,
            version@,
            css_class@,
            style_header@,
            script_header@,
        ));
    }
    chars_to_string(&out)
}

/// Render one document, annotating its headings from the repository's
/// history; a repository failure degrades to an empty version marker.
pub fn render_markdown_page(
    contents: &str,
    repo_dir: &str,
    fpath: &str,
    css_class: &str,
    style_header: &str,
    script_header: &str,
) -> (r: String)
    ensures
        exists|v: Seq<char>|
            (#[trigger] page_of(contents@, v, css_class@, style_header@, script_header@)) == r@ && (
            v.len() == 0 || is_version_annotation(v)),
{
    let version = match get_file_git_version(repo_dir, fpath) {
        Some(v) => v,
        None => String::new(),
    };
    let r = compose_page(contents, version.as_str(), css_class, style_header, script_header);
    proof {
        assert(page_of(contents@, version@, css_class@, style_header@, script_header@) == r@);
    }
    r
}

/// The final artifact for one render request.
pub struct RenderedDocument {
    pub title: String,
    pub body_html: String,
}

/// Render one document to its final artifact: the document title beside
/// the finished page.
pub fn render_document(
    contents: &str,
    repo_dir: &str,
    fpath: &str,
    css_class: &str,
    style_header: &str,
    script_header: &str,
) -> (r: RenderedDocument)
    ensures
        r.title@ == first_text(events_of(contents@)),
        exists|v: Seq<char>|
            (#[trigger] page_of(contents@, v, css_class@, style_header@, script_header@))
                == r.body_html@ && (v.len() == 0 || is_version_annotation(v)),
{
    let title = get_title(contents);
    let body_html = render_markdown_page(
        contents,
        repo_dir,
        fpath,
        css_class,
        style_header,
        script_header,
    );
    RenderedDocument { title, body_html }
}

/// The table-of-contents renderer and the anchor injector always derive
/// the same identifier from the same heading text: a rendered node with
/// text `t` links to the fragment `slug_of(t)`, and an injected slot
/// carrying text `t` writes `id="slug_of(t)"` into its heading tag, so
/// the emitted links resolve to the emitted anchors.
pub proof fn lemma_toc_link_matches_anchor(
    t: Seq<char>,
    l: u32,
    d: char,
    rest: Seq<char>,
    slots: Seq<(u32, Option<Seq<char>>)>,
)
    requires
        is_h_digit(d),
        slots.len() > 0,
        slots[0] == (l, Some(t)),
    ensures
        render_one((OutlineV { level: l, text: t, children: Seq::empty() })) == "<li><a href=\"#"@
            + slug_of(t) + "\">"@ + t + "</a></li>\n"@,
        inject_from(seq!['<', 'h', d, '>'] + rest, slots) == seq!['<', 'h', d, ' ', 'i', 'd', '=', '"']
            + slug_of(t) + seq!['"', '>'] + inject_from(rest, slots.drop_first()),
{
    let node = OutlineV { level: l, text: t, children: Seq::empty() };
    assert(render_items(Seq::<OutlineV>::empty()) == Seq::<char>::empty());
    assert(render_one(node) =~= "<li><a href=\"#"@ + slug_of(t) + "\">"@ + t + "</a></li>\n"@);
    let s = seq!['<', 'h', d, '>'] + rest;
    assert(s[0] == '<' && s[1] == 'h' && s[2] == d && s[3] == '>');
    assert(h_tag_at(s));
    assert(s.skip(4) =~= rest);
    assert(inject_from(s, slots) =~= seq!['<', 'h', d, ' ', 'i', 'd', '=', '"'] + slug_of(t)
        + seq!['"', '>'] + inject_from(rest, slots.drop_first()));
}

pub proof fn lemma_extract_no_headings(evs: Seq<MdEventV>)
    requires
        forall|i: int| 0 <= i < evs.len() ==> !((#[trigger] evs[i]) is HeadingStart),
    ensures
        extract_from(evs, None) == Seq::<(u32, Seq<char>)>::empty(),
    decreases evs.len(),
{
    if evs.len() > 0 {
        assert(forall|i: int|
            0 <= i < evs.drop_first().len() ==> !((#[trigger] evs.drop_first()[i])
                is HeadingStart));
        lemma_extract_no_headings(evs.drop_first());
    }
}

pub proof fn lemma_slots_no_headings(evs: Seq<MdEventV>, st: ScanState)
    requires
        forall|i: int| 0 <= i < evs.len() ==> !((#[trigger] evs[i]) is HeadingStart),
        !(st is InHeading),
    ensures
        slots_from(evs, st) == Seq::<(u32, Option<Seq<char>>)>::empty(),
    decreases evs.len(),
{
    if evs.len() > 0 {
        assert(forall|i: int|
            0 <= i < evs.drop_first().len() ==> !((#[trigger] evs.drop_first()[i])
                is HeadingStart));
        match evs[0] {
            MdEventV::HeadingStart(_) => {
                assert(false);
            },
            MdEventV::Text(_) => {
                lemma_slots_no_headings(evs.drop_first(), st);
            },
            MdEventV::HeadingEnd(_) => {
                lemma_slots_no_headings(evs.drop_first(), ScanState::Idle);
            },
            MdEventV::Other => {
                lemma_slots_no_headings(evs.drop_first(), st);
            },
        }
    }
}

/// A document without headings gets an empty table-of-contents list and
/// keeps its rendered page free of anchor substitutions.
pub proof fn lemma_no_headings_no_toc_no_anchors(src: Seq<char>, html: Seq<char>)
    requires
        forall|i: int|
            0 <= i < events_of(src).len() ==> !((#[trigger] events_of(src)[i]) is HeadingStart),
        forall|i: int|
            0 <= i < events_ext_of(src).len() ==> !((#[trigger] events_ext_of(
                src,
            )[i]) is HeadingStart),
    ensures
        toc_inner_of(events_of(src)) == Seq::<char>::empty(),
        inject_from(html, slots_of(events_ext_of(src))) == html,
{
    lemma_extract_no_headings(events_of(src));
    assert(order_spec(Seq::<(u32, Seq<char>)>::empty()) == Seq::<OutlineV>::empty());
    assert(render_items(Seq::<OutlineV>::empty()) == Seq::<char>::empty());
    lemma_slots_no_headings(events_ext_of(src), ScanState::Idle);
    lemma_inject_no_slots(html);
    assert(inject_from(html, slots_of(events_ext_of(src))) == inject_from(
        html,
        Seq::<(u32, Option<Seq<char>>)>::empty(),
    ));
}

} // verus!
