use vstd::prelude::*;

verus! {

use crate::chars::{chars_to_string, str_to_chars};
use crate::slug::{slug_chars, slug_of};

/// One node of the outline tree: a heading together with the headings
/// nested beneath it.
#[derive(Debug)]
pub struct ContentItem {
    pub level: u32,
    pub text: String,
    pub children: Vec<ContentItem>,
}

/// The mathematical shape of an outline node.
pub struct OutlineV {
    pub level: u32,
    pub text: Seq<char>,
    pub children: Seq<OutlineV>,
}

/// Abstraction of one executable node.
pub open spec fn item_view(c: ContentItem) -> OutlineV
    decreases c,
{
    OutlineV { level: c.level, text: c.text@, children: items_view(c.children@) }
}

/// Abstraction of a forest of executable nodes.
pub open spec fn items_view(s: Seq<ContentItem>) -> Seq<OutlineV>
    decreases s,
{
    if s.len() == 0 {
        Seq::empty()
    } else {
        seq![item_view(s[0])] + items_view(s.drop_first())
    }
}

pub proof fn lemma_items_view(s: Seq<ContentItem>)
    ensures
        items_view(s).len() == s.len(),
        forall|i: int| 0 <= i < s.len() ==> items_view(s)[i] == item_view(s[i]),
    decreases s,
{
    if s.len() > 0 {
        lemma_items_view(s.drop_first());
    }
}

/// Attach one heading to a forest: it nests under the last node of the
/// current scope when that node's level is strictly lower, and otherwise
/// starts a new sibling at the current scope.
pub open spec fn append_spec(items: Seq<OutlineV>, level: u32, text: Seq<char>) -> Seq<OutlineV>
    decreases items,
{
    if items.len() > 0 && items.last().level < level {
        items.drop_last().push(
            (OutlineV {
                level: items.last().level,
                text: items.last().text,
                children: append_spec(items.last().children, level, text),
            }),
        )
    } else {
        items.push((OutlineV { level, text, children: Seq::empty() }))
    }
}

/// Fold a flat heading sequence into an outline forest, front to back.
pub open spec fn order_from(acc: Seq<OutlineV>, recs: Seq<(u32, Seq<char>)>) -> Seq<OutlineV>
    decreases recs.len(),
{
    if recs.len() == 0 {
        acc
    } else {
        order_from(append_spec(acc, recs[0].0, recs[0].1), recs.drop_first())
    }
}

pub open spec fn order_spec(recs: Seq<(u32, Seq<char>)>) -> Seq<OutlineV> {
    order_from(Seq::empty(), recs)
}

/// Pre-order flattening of an outline forest back to heading records.
pub open spec fn flatten_items(items: Seq<OutlineV>) -> Seq<(u32, Seq<char>)>
    decreases items,
{
    if items.len() == 0 {
        Seq::empty()
    } else {
        seq![(items[0].level, items[0].text)] + flatten_items(items[0].children) + flatten_items(
            items.drop_first(),
        )
    }
}

pub proof fn lemma_flatten_push(s: Seq<OutlineV>, x: OutlineV)
    ensures
        flatten_items(s.push(x)) == flatten_items(s) + seq![(x.level, x.text)] + flatten_items(
            x.children,
        ),
    decreases s,
{
    if s.len() == 0 {
        assert(s.push(x)[0] == x);
        assert(s =~= Seq::<OutlineV>::empty());
        assert(s.push(x).drop_first() =~= Seq::<OutlineV>::empty());
        assert(flatten_items(Seq::<OutlineV>::empty()) == Seq::<(u32, Seq<char>)>::empty());
        assert(flatten_items(s.push(x)) =~= flatten_items(s) + seq![(x.level, x.text)]
            + flatten_items(x.children));
    } else {
        assert(s.push(x).drop_first() =~= s.drop_first().push(x));
        lemma_flatten_push(s.drop_first(), x);
        assert(s.push(x)[0] == s[0]);
        assert(flatten_items(s.push(x)) =~= flatten_items(s) + seq![(x.level, x.text)]
            + flatten_items(x.children));
    }
}

/// Attaching a heading to a forest extends its pre-order flattening by
/// exactly that heading: tree construction regroups and never reorders.
pub proof fn lemma_append_flatten(items: Seq<OutlineV>, level: u32, text: Seq<char>)
    ensures
        flatten_items(append_spec(items, level, text)) == flatten_items(items) + seq![
            (level, text),
        ],
    decreases items,
{
    if items.len() > 0 && items.last().level < level {
        let l = items.last();
        let l2 = OutlineV { level: l.level, text: l.text, children: append_spec(l.children, level, text) };
        lemma_append_flatten(l.children, level, text);
        lemma_flatten_push(items.drop_last(), l2);
        lemma_flatten_push(items.drop_last(), l);
        assert(items.drop_last().push(l) =~= items);
        assert(flatten_items(append_spec(items, level, text)) =~= flatten_items(items) + seq![
            (level, text),
        ]);
    } else {
        let x = OutlineV { level, text, children: Seq::empty() };
        lemma_flatten_push(items, x);
        assert(flatten_items(x.children) =~= Seq::<(u32, Seq<char>)>::empty());
        assert(flatten_items(append_spec(items, level, text)) =~= flatten_items(items) + seq![
            (level, text),
        ]);
    }
}

pub proof fn lemma_order_from_flatten(acc: Seq<OutlineV>, recs: Seq<(u32, Seq<char>)>)
    ensures
        flatten_items(order_from(acc, recs)) == flatten_items(acc) + recs,
    decreases recs.len(),
{
    if recs.len() == 0 {
        assert(flatten_items(acc) + recs =~= flatten_items(acc));
    } else {
        lemma_append_flatten(acc, recs[0].0, recs[0].1);
        lemma_order_from_flatten(append_spec(acc, recs[0].0, recs[0].1), recs.drop_first());
        assert(flatten_items(acc) + seq![(recs[0].0, recs[0].1)] + recs.drop_first() =~= flatten_items(
            acc,
        ) + recs);
    }
}

/// The outline tree built from a flat heading sequence reproduces that
/// sequence exactly under pre-order flattening, for every input sequence.
pub proof fn lemma_toc_tree_preorder(recs: Seq<(u32, Seq<char>)>)
    ensures
        flatten_items(order_spec(recs)) == recs,
{
    lemma_order_from_flatten(Seq::empty(), recs);
    assert(flatten_items(Seq::<OutlineV>::empty()) + recs =~= recs);
}

/// Attach one heading below the forest's rightmost spine.
pub fn append_heading(content_items: &mut Vec<ContentItem>, level: u32, text: String)
    ensures
        items_view(final(content_items)@) == append_spec(items_view(old(content_items)@), level, text@),
    decreases old(content_items)@,
{
    let n = content_items.len();
    proof {
        lemma_items_view(content_items@);
    }
    if n > 0 && content_items[n - 1].level < level {
        let mut last = content_items.pop().unwrap();
        let ghost last0 = last;
        proof {
            assert(last0 == old(content_items)@[n - 1]);
            assert(decreases_to!(old(content_items)@ => last0));
        }
        append_heading(&mut last.children, level, text);
        proof {
            lemma_items_view(old(content_items)@);
            assert(items_view(old(content_items)@).last() == item_view(last0));
            assert(last.level == last0.level && last.text == last0.text);
            assert(item_view(last) == (OutlineV {
                level: last0.level,
                text: last0.text@,
                children: append_spec(items_view(last0.children@), level, text@),
            }));
        }
        let ghost before = content_items@;
        content_items.push(last);
        proof {
            assert(content_items@.subrange(0, before.len() as int) =~= before);
            lemma_view_push_drop(old(content_items)@, before, content_items@, level, text@);
        }
    } else {
        content_items.push(ContentItem { level, text, children: Vec::new() });
        proof {
            assert(content_items@.subrange(0, old(content_items)@.len() as int) =~= old(
                content_items,
            )@);
            lemma_items_view_snoc(old(content_items)@, content_items@);
            assert(items_view(Seq::<ContentItem>::empty()) =~= Seq::<OutlineV>::empty());
            assert(item_view(content_items@.last()) == (OutlineV {
                level,
                text: text@,
                children: Seq::empty(),
            }));
            assert(items_view(content_items@) =~= append_spec(
                items_view(old(content_items)@),
                level,
                text@,
            ));
        }
    }
}

proof fn lemma_items_view_snoc(s0: Seq<ContentItem>, s1: Seq<ContentItem>)
    requires
        s1.len() == s0.len() + 1,
        s1.subrange(0, s0.len() as int) == s0,
    ensures
        items_view(s1) == items_view(s0).push(item_view(s1.last())),
    decreases s0,
{
    lemma_items_view(s0);
    lemma_items_view(s1);
    assert forall|i: int| 0 <= i < s0.len() implies s1[i] == s0[i] by {
        assert(s1.subrange(0, s0.len() as int)[i] == s1[i]);
    }
    assert(items_view(s1) =~= items_view(s0).push(item_view(s1.last())));
}

proof fn lemma_view_push_drop(
    orig: Seq<ContentItem>,
    popped: Seq<ContentItem>,
    fin: Seq<ContentItem>,
    level: u32,
    text: Seq<char>,
)
    requires
        orig.len() > 0,
        popped == orig.drop_last(),
        fin.len() == popped.len() + 1,
        fin.subrange(0, popped.len() as int) == popped,
        item_view(fin.last()) == (OutlineV {
            level: orig.last().level,
            text: orig.last().text@,
            children: append_spec(items_view(orig.last().children@), level, text),
        }),
        items_view(orig).last().level < level,
    ensures
        items_view(fin) == append_spec(items_view(orig), level, text),
{
    lemma_items_view(orig);
    lemma_items_view_snoc(popped, fin);
    assert(items_view(orig).last() == item_view(orig.last()));
    assert forall|i: int| 0 <= i < popped.len() implies items_view(orig)[i] == items_view(popped)[i]
        by {
        lemma_items_view(popped);
        assert(popped[i] == orig[i]);
    }
    assert(items_view(orig).drop_last() =~= items_view(popped)) by {
        lemma_items_view(popped);
    }
    assert(items_view(fin) =~= append_spec(items_view(orig), level, text));
}

/// Build the outline forest from the flat heading list, consuming it
/// front to back.
pub fn order_toc_list(heading_list: Vec<(u32, String)>) -> (r: Vec<ContentItem>)
    ensures
        items_view(r@) == order_spec(recs_view(heading_list@)),
        flatten_items(items_view(r@)) == recs_view(heading_list@),
{
    let mut heading_list = heading_list;
    let mut content_items: Vec<ContentItem> = Vec::new();
    let ghost all = recs_view(heading_list@);
    proof {
        assert(items_view(Seq::empty()) =~= Seq::<OutlineV>::empty());
    }
    while heading_list.len() > 0
        invariant
            order_from(items_view(content_items@), recs_view(heading_list@)) == order_spec(all),
        decreases heading_list@.len(),
    {
        let ghost pre = recs_view(heading_list@);
        let heading = heading_list.remove(0);
        proof {
            assert(recs_view(heading_list@) =~= pre.drop_first());
            assert(pre[0] == (heading.0, heading.1@));
        }
        append_heading(&mut content_items, heading.0, heading.1);
    }
    proof {
        assert(recs_view(heading_list@) =~= Seq::<(u32, Seq<char>)>::empty());
        lemma_toc_tree_preorder(all);
    }
    content_items
}

/// Heading records abstracted to their levels and character sequences.
pub open spec fn recs_view(s: Seq<(u32, String)>) -> Seq<(u32, Seq<char>)> {
    s.map_values(|p: (u32, String)| (p.0, p.1@))
}

/// The rendered list for a non-empty forest; the empty forest renders to
/// the empty string.
pub open spec fn render_items(items: Seq<OutlineV>) -> Seq<char>
    decreases items, 1int,
{
    if items.len() == 0 {
        Seq::empty()
    } else {
        "<ul>\n"@ + render_list(items) + "</ul>\n"@
    }
}

pub open spec fn render_list(items: Seq<OutlineV>) -> Seq<char>
    decreases items, 0int,
{
    if items.len() == 0 {
        Seq::empty()
    } else {
        render_one(items[0]) + render_list(items.drop_first())
    }
}

/// One list entry: a link to the node's anchor, labelled with its text,
/// followed by the rendered sublist of its children.
pub open spec fn render_one(c: OutlineV) -> Seq<char>
    decreases c, 0int,
{
    "<li><a href=\"#"@ + slug_of(c.text) + "\">"@ + c.text + "</a></li>\n"@ + render_items(
        c.children,
    )
}

pub proof fn lemma_render_list_snoc(s: Seq<OutlineV>, x: OutlineV)
    ensures
        render_list(s.push(x)) == render_list(s) + render_one(x),
    decreases s,
{
    if s.len() == 0 {
        assert(s.push(x)[0] == x);
        assert(s =~= Seq::<OutlineV>::empty());
        assert(s.push(x).drop_first() =~= Seq::<OutlineV>::empty());
        assert(render_list(Seq::<OutlineV>::empty()) == Seq::<char>::empty());
        assert(render_list(s.push(x)) =~= render_list(s) + render_one(x));
    } else {
        assert(s.push(x).drop_first() =~= s.drop_first().push(x));
        lemma_render_list_snoc(s.drop_first(), x);
        assert(s.push(x)[0] == s[0]);
        vstd::seq_lib::lemma_concat_associative(
            render_one(s[0]),
            render_list(s.drop_first()),
            render_one(x),
        );
        assert(render_list(s.push(x)) =~= render_list(s) + render_one(x));
    }
}

fn render_toc_chars(contents: &Vec<ContentItem>) -> (r: Vec<char>)
    ensures
        r@ == render_items(items_view(contents@)),
    decreases contents@, 1int,
{
    proof {
        lemma_items_view(contents@);
    }
    if contents.len() == 0 {
        let r: Vec<char> = Vec::new();
        proof {
            assert(r@ =~= render_items(items_view(contents@)));
        }
        return r;
    }
    let mut out = str_to_chars("<ul>\n");
    let mut i: usize = 0;
    while i < contents.len()
        invariant
            i <= contents@.len(),
            contents@.len() > 0,
            out@ == "<ul>\n"@ + render_list(items_view(contents@).subrange(0, i as int)),
        decreases contents@.len() - i,
    {
        let ghost pre = items_view(contents@).subrange(0, i as int);
        let c = &contents[i];
        proof {
            assert(decreases_to!(contents@ => contents@[i as int]));
            lemma_items_view(contents@);
        }
        let mut piece = str_to_chars("<li><a href=\"#");
        let mut slug = slug_chars(str_to_chars(c.text.as_str()));
        out.append(&mut piece);
        out.append(&mut slug);
        let mut mid = str_to_chars("\">");
        out.append(&mut mid);
        let mut txt = str_to_chars(c.text.as_str());
        out.append(&mut txt);
        let mut close = str_to_chars("</a></li>\n");
        out.append(&mut close);
        let mut sub = render_toc_chars(&c.children);
        out.append(&mut sub);
        i = i + 1;
        proof {
            lemma_render_list_snoc(pre, item_view(contents@[i - 1]));
            assert(pre.push(item_view(contents@[i - 1])) =~= items_view(contents@).subrange(
                0,
                i as int,
            ));
            assert(out@ =~= "<ul>\n"@ + render_list(items_view(contents@).subrange(0, i as int)));
        }
    }
    let mut tail = str_to_chars("</ul>\n");
    out.append(&mut tail);
    proof {
        assert(items_view(contents@).subrange(0, contents@.len() as int) =~= items_view(
            contents@,
        ));
        assert(out@ =~= render_items(items_view(contents@)));
    }
    out
}

/// Render an outline forest as a nested anchor-link list.
pub fn render_toc(contents: &Vec<ContentItem>) -> (r: String)
    ensures
        r@ == render_items(items_view(contents@)),
{
    let chars = render_toc_chars(contents);
    chars_to_string(&chars)
}

} // verus!
