use vstd::prelude::*;

verus! {

use crate::toc::recs_view;

/// What the pipeline reads from one Markdown parse event: heading
/// boundaries with their level, text runs, and everything else opaque.
pub enum MdEvent {
    HeadingStart(u32),
    HeadingEnd(u32),
    Text(String),
    Other,
}

/// The mathematical shape of one parse event.
pub enum MdEventV {
    HeadingStart(u32),
    HeadingEnd(u32),
    Text(Seq<char>),
    Other,
}

pub open spec fn ev_view(e: MdEvent) -> MdEventV {
    match e {
        MdEvent::HeadingStart(l) => MdEventV::HeadingStart(l),
        MdEvent::HeadingEnd(l) => MdEventV::HeadingEnd(l),
        MdEvent::Text(t) => MdEventV::Text(t@),
        MdEvent::Other => MdEventV::Other,
    }
}

pub open spec fn evs_view(s: Seq<MdEvent>) -> Seq<MdEventV> {
    s.map_values(|e: MdEvent| ev_view(e))
}

/// The event stream that the Markdown parser yields for source `s` under
/// default options, abstracted to the shapes above.
pub uninterp spec fn events_of(s: Seq<char>) -> Seq<MdEventV>;

/// The event stream for source `s` with the strikethrough and table
/// extensions enabled, abstracted to the shapes above.
pub uninterp spec fn events_ext_of(s: Seq<char>) -> Seq<MdEventV>;

/// The HTML that the Markdown renderer produces for source `s` with the
/// strikethrough and table extensions enabled.
pub uninterp spec fn html_ext_of(s: Seq<char>) -> Seq<char>;

/// Relies on pulldown_cmark::Parser::new: the event stream is a function
/// of the source text alone. Heading starts and ends and text runs are
/// handed over as plain values; every other event is opaque here.
#[verifier::external_body]
pub(crate) fn parse_events(s: &str) -> (r: Vec<MdEvent>)
    ensures
        evs_view(r@) == events_of(s@),
{
    pulldown_cmark::Parser::new(s).map(
        |ev| match ev {
            pulldown_cmark::Event::Start(pulldown_cmark::Tag::Heading(l)) => MdEvent::HeadingStart(
                l,
            ),
            pulldown_cmark::Event::End(pulldown_cmark::Tag::Heading(l)) => MdEvent::HeadingEnd(l),
            pulldown_cmark::Event::Text(t) => MdEvent::Text(t.into_string()),
            _ => MdEvent::Other,
        },
    ).collect()
}

/// Relies on pulldown_cmark::Parser::new_ext with the strikethrough and
/// table extensions: the event stream is a function of the source alone.
#[verifier::external_body]
pub(crate) fn parse_events_ext(s: &str) -> (r: Vec<MdEvent>)
    ensures
        evs_view(r@) == events_ext_of(s@),
{
    let mut options = pulldown_cmark::Options::empty();
    options.insert(pulldown_cmark::Options::ENABLE_STRIKETHROUGH);
    options.insert(pulldown_cmark::Options::ENABLE_TABLES);
    pulldown_cmark::Parser::new_ext(s, options).map(
        |ev| match ev {
            pulldown_cmark::Event::Start(pulldown_cmark::Tag::Heading(l)) => MdEvent::HeadingStart(
                l,
            ),
            pulldown_cmark::Event::End(pulldown_cmark::Tag::Heading(l)) => MdEvent::HeadingEnd(l),
            pulldown_cmark::Event::Text(t) => MdEvent::Text(t.into_string()),
            _ => MdEvent::Other,
        },
    ).collect()
}

/// Relies on pulldown_cmark::html::push_html over Parser::new_ext with the
/// strikethrough and table extensions: the rendered HTML is a function of
/// the source text alone.
#[verifier::external_body]
pub(crate) fn render_html_ext(s: &str) -> (r: String)
    ensures
        r@ == html_ext_of(s@),
{
    let mut options = pulldown_cmark::Options::empty();
    options.insert(pulldown_cmark::Options::ENABLE_STRIKETHROUGH);
    options.insert(pulldown_cmark::Options::ENABLE_TABLES);
    let parser = pulldown_cmark::Parser::new_ext(s, options);
    let mut out = String::new();
    pulldown_cmark::html::push_html(&mut out, parser);
    out
}

/// Heading extraction: while no heading is open the scan is idle; a
/// heading start opens one at its level; the first text run inside an open
/// heading is recorded (for levels one through six) and closes the
/// capture, as does the heading's end.
pub open spec fn extract_from(evs: Seq<MdEventV>, st: Option<u32>) -> Seq<(u32, Seq<char>)>
    decreases evs.len(),
{
    if evs.len() == 0 {
        Seq::empty()
    } else {
        match evs[0] {
            MdEventV::HeadingStart(l) => extract_from(evs.drop_first(), Some(l)),
            MdEventV::Text(t) => match st {
                Some(l) => if 1 <= l && l <= 6 {
                    seq![(l, t)] + extract_from(evs.drop_first(), None)
                } else {
                    extract_from(evs.drop_first(), None)
                },
                None => extract_from(evs.drop_first(), None),
            },
            MdEventV::HeadingEnd(_) => extract_from(evs.drop_first(), None),
            MdEventV::Other => extract_from(evs.drop_first(), st),
        }
    }
}

/// The flat, ordered heading records of an event stream.
pub open spec fn extract_headings(evs: Seq<MdEventV>) -> Seq<(u32, Seq<char>)> {
    extract_from(evs, None)
}

/// Scan the document and collect its flat list of heading records.
pub fn get_toc_list(contents: &str) -> (r: Vec<(u32, String)>)
    ensures
        recs_view(r@) == extract_headings(events_of(contents@)),
{
    let evs = parse_events(contents);
    let ghost v = evs_view(evs@);
    let mut out: Vec<(u32, String)> = Vec::new();
    let mut st: Option<u32> = None;
    let mut i: usize = 0;
    proof {
        assert(v.skip(0) =~= v);
        assert(recs_view(out@) + extract_from(v.skip(0), st) =~= extract_from(v, None));
    }
    while i < evs.len()
        invariant
            i <= evs@.len(),
            v == evs_view(evs@),
            v.len() == evs@.len(),
            extract_from(v, None) == recs_view(out@) + extract_from(v.skip(i as int), st),
        decreases evs@.len() - i,
    {
        let ghost pre = recs_view(out@);
        proof {
            assert(v.skip(i as int)[0] == v[i as int]);
            assert(v[i as int] == ev_view(evs@[i as int]));
            assert(v.skip(i as int).drop_first() =~= v.skip(i + 1));
        }
        match &evs[i] {
            MdEvent::HeadingStart(l) => {
                st = Some(*l);
            },
            MdEvent::Text(t) => {
                match st {
                    Some(l) => {
                        if 1 <= l && l <= 6 {
                            out.push((l, t.clone()));
                            proof {
                                assert(recs_view(out@) =~= pre + seq![(l, t@)]);
                            }
                        }
                        st = None;
                    },
                    None => {
                        st = None;
                    },
                }
            },
            MdEvent::HeadingEnd(_) => {
                st = None;
            },
            MdEvent::Other => {
            },
        }
        i = i + 1;
        proof {
            assert(extract_from(v, None) == recs_view(out@) + extract_from(v.skip(i as int), st));
        }
    }
    proof {
        assert(v.skip(i as int) =~= Seq::<MdEventV>::empty());
        assert(extract_from(v.skip(i as int), st) =~= Seq::<(u32, Seq<char>)>::empty());
        assert(recs_view(out@) =~= recs_view(out@) + extract_from(v.skip(i as int), st));
    }
    out
}

/// The first text run of the event stream, or the empty sequence when the
/// document has none: the document title.
pub open spec fn first_text(evs: Seq<MdEventV>) -> Seq<char>
    decreases evs.len(),
{
    if evs.len() == 0 {
        Seq::empty()
    } else {
        match evs[0] {
            MdEventV::Text(t) => t,
            _ => first_text(evs.drop_first()),
        }
    }
}

/// The document title: the first text run under a default parse, or the
/// empty string for a document without text.
pub fn get_title(contents: &str) -> (r: String)
    ensures
        r@ == first_text(events_of(contents@)),
{
    let evs = parse_events(contents);
    let ghost v = evs_view(evs@);
    let mut i: usize = 0;
    proof {
        assert(v.skip(0) =~= v);
    }
    while i < evs.len()
        invariant
            i <= evs@.len(),
            v == evs_view(evs@),
            v == events_of(contents@),
            v.len() == evs@.len(),
            first_text(v) == first_text(v.skip(i as int)),
        decreases evs@.len() - i,
    {
        proof {
            assert(v.skip(i as int)[0] == v[i as int]);
            assert(v[i as int] == ev_view(evs@[i as int]));
            assert(v.skip(i as int).drop_first() =~= v.skip(i + 1));
        }
        match &evs[i] {
            MdEvent::Text(t) => {
                proof {
                    assert(first_text(v.skip(i as int)) == t@);
                }
                return t.clone();
            },
            _ => {
            },
        }
        i = i + 1;
    }
    proof {
        assert(v.skip(i as int) =~= Seq::<MdEventV>::empty());
    }
    String::new()
}

/// One anchor slot per heading of the event stream: its level, and the
/// text of its first run when it has one in levels one through six.
pub enum ScanState {
    Idle,
    InHeading(u32),
    Tail,
}

pub open spec fn slots_from(evs: Seq<MdEventV>, st: ScanState) -> Seq<(u32, Option<Seq<char>>)>
    decreases evs.len(),
{
    if evs.len() == 0 {
        Seq::empty()
    } else {
        match evs[0] {
            MdEventV::HeadingStart(l) => slots_from(evs.drop_first(), ScanState::InHeading(l)),
            MdEventV::Text(t) => match st {
                ScanState::InHeading(l) => seq![
                    (l, if 1 <= l && l <= 6 {
                        Some(t)
                    } else {
                        None
                    }),
                ] + slots_from(evs.drop_first(), ScanState::Tail),
                _ => slots_from(evs.drop_first(), st),
            },
            MdEventV::HeadingEnd(_) => match st {
                ScanState::InHeading(l) => seq![(l, Option::<Seq<char>>::None)] + slots_from(
                    evs.drop_first(),
                    ScanState::Idle,
                ),
                _ => slots_from(evs.drop_first(), ScanState::Idle),
            },
            MdEventV::Other => slots_from(evs.drop_first(), st),
        }
    }
}

pub open spec fn slots_of(evs: Seq<MdEventV>) -> Seq<(u32, Option<Seq<char>>)> {
    slots_from(evs, ScanState::Idle)
}

/// Slot records abstracted to character sequences.
pub open spec fn slot_recs_view(s: Seq<(u32, Option<String>)>) -> Seq<(u32, Option<Seq<char>>)> {
    s.map_values(
        |p: (u32, Option<String>)|
            (
                p.0,
                match p.1 {
                    Some(t) => Some(t@),
                    None => None,
                },
            ),
    )
}

/// Collect one anchor slot per heading of the extended event stream.
pub fn heading_slots(contents: &str) -> (r: Vec<(u32, Option<String>)>)
    ensures
        slot_recs_view(r@) == slots_of(events_ext_of(contents@)),
{
    let evs = parse_events_ext(contents);
    let ghost v = evs_view(evs@);
    let mut out: Vec<(u32, Option<String>)> = Vec::new();
    let mut st: ScanState = ScanState::Idle;
    let mut i: usize = 0;
    proof {
        assert(v.skip(0) =~= v);
        assert(slot_recs_view(out@) + slots_from(v.skip(0), st) =~= slots_from(v, ScanState::Idle));
    }
    while i < evs.len()
        invariant
            i <= evs@.len(),
            v == evs_view(evs@),
            v.len() == evs@.len(),
            slots_of(v) == slot_recs_view(out@) + slots_from(v.skip(i as int), st),
        decreases evs@.len() - i,
    {
        let ghost pre = slot_recs_view(out@);
        proof {
            assert(v.skip(i as int)[0] == v[i as int]);
            assert(v[i as int] == ev_view(evs@[i as int]));
            assert(v.skip(i as int).drop_first() =~= v.skip(i + 1));
        }
        match &evs[i] {
            MdEvent::HeadingStart(l) => {
                st = ScanState::InHeading(*l);
            },
            MdEvent::Text(t) => {
                match st {
                    ScanState::InHeading(l) => {
                        if 1 <= l && l <= 6 {
                            out.push((l, Some(t.clone())));
                            proof {
                                assert(slot_recs_view(out@) =~= pre + seq![(l, Some(t@))]);
                            }
                        } else {
                            out.push((l, None));
                            proof {
                                assert(slot_recs_view(out@) =~= pre + seq![
                                    (l, Option::<Seq<char>>::None),
                                ]);
                            }
                        }
                        st = ScanState::Tail;
                    },
                    _ => {
                    },
                }
            },
            MdEvent::HeadingEnd(_) => {
                match st {
                    ScanState::InHeading(l) => {
                        out.push((l, None));
                        proof {
                            assert(slot_recs_view(out@) =~= pre + seq![
                                (l, Option::<Seq<char>>::None),
                            ]);
                        }
                        st = ScanState::Idle;
                    },
                    _ => {
                        st = ScanState::Idle;
                    },
                }
            },
            MdEvent::Other => {
            },
        }
        i = i + 1;
        proof {
            assert(slots_of(v) == slot_recs_view(out@) + slots_from(v.skip(i as int), st));
        }
    }
    proof {
        assert(v.skip(i as int) =~= Seq::<MdEventV>::empty());
        assert(slots_from(v.skip(i as int), st) =~= Seq::<(u32, Option<Seq<char>>)>::empty());
        assert(slot_recs_view(out@) =~= slot_recs_view(out@) + slots_from(v.skip(i as int), st));
    }
    out
}

} // verus!
