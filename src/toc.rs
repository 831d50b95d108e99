//! The table of contents: headings are collected and given anchors.
use vstd::prelude::*;
use crate::buffer::{Opener, find_last_opener, last_opener, lemma_last_opener_bounds};
use crate::event::{Event, EventV, Tag, TagV, events_view, html};
use crate::output::{Heading, HeadingV, Output, OutputV, StepV, outputs_view, pass, step_of};
use crate::text::{push_char, push_str};

verus! {

/// The anchor that the slug library makes of a title.
pub uninterp spec fn slug_of(s: Seq<char>) -> Seq<char>;

/// The characters a slug is made of: `a`-`z`, `0`-`9` and `-`.
pub open spec fn is_slug_char(c: char) -> bool {
    ('a' <= c <= 'z') || ('0' <= c <= '9') || c == '-'
}

pub open spec fn is_ascii_text(s: Seq<char>) -> bool {
    forall|i: int| 0 <= i < s.len() ==> (s[i] as u32) < 128
}

/// The slug of ASCII text before a trailing dash is dropped: letters and
/// digits kept (letters lowercased), every run of other characters one dash,
/// none at the start.
pub open spec fn ascii_slug_body(s: Seq<char>, prev_dash: bool) -> Seq<char>
    decreases s.len(),
{
    if s.len() == 0 {
        seq![]
    } else {
        let c = s[0];
        if ('a' <= c <= 'z') || ('0' <= c <= '9') {
            seq![c] + ascii_slug_body(s.drop_first(), false)
        } else if 'A' <= c <= 'Z' {
            seq![((c as u32) + 32) as char] + ascii_slug_body(s.drop_first(), false)
        } else if !prev_dash {
            seq!['-'] + ascii_slug_body(s.drop_first(), true)
        } else {
            ascii_slug_body(s.drop_first(), true)
        }
    }
}

/// The slug of ASCII text.
pub open spec fn ascii_slug(s: Seq<char>) -> Seq<char> {
    let b = ascii_slug_body(s, true);
    if b.len() > 0 && b.last() == '-' {
        b.drop_last()
    } else {
        b
    }
}

/// Relies on `slug::slugify`: the slug depends on the text alone, is made of
/// `a`-`z`, `0`-`9` and `-`, and for ASCII text is computed as `ascii_slug`
/// says (non-ASCII characters go through a transliteration table first).
#[verifier::external_body]
fn slugify(s: &str) -> (r: String)
    ensures
        r@ == slug_of(s@),
        forall|i: int| 0 <= i < r@.len() ==> is_slug_char(#[trigger] r@[i]),
        is_ascii_text(s@) ==> r@ == ascii_slug(s@),
{
    slug::slugify(s)
}

/// The anchor of a heading with this title: the slug of the title, which
/// for ASCII titles is `ascii_slug`.
pub open spec fn anchor_of(title: Seq<char>) -> Seq<char> {
    if is_ascii_text(title) {
        ascii_slug(title)
    } else {
        slug_of(title)
    }
}

/// The opening tag of a heading with its anchor.
pub open spec fn heading_open(level: u32, anchor: Seq<char>) -> Seq<char> {
    "<h"@ + seq![(('0' as u32) + level) as char] + " id=\""@ + anchor + "\">"@
}

pub open spec fn heading_option_view(h: Option<Heading>) -> Option<HeadingV> {
    match h {
        Some(x) => Some(x@),
        None => None,
    }
}

pub ghost struct TableOfContentsV {
    pub current: Option<HeadingV>,
}

/// The state of the table-of-contents extension and what it does with one
/// event; it never claims an event:
/// - the start of a heading of level 1 to 6 begins a heading;
/// - text and code make up its title;
/// - at its end the heading gets `anchor_of` its title as anchor, the last
///   heading opener is rewritten to carry it as `id`, and the heading is
///   handed over.
pub open spec fn toc_step(st: TableOfContentsV, s: Seq<EventV>, e: EventV) -> (TableOfContentsV, StepV) {
    match e {
        EventV::Start(TagV::Heading(level)) => (
            if 1 <= level <= 6 {
                TableOfContentsV { current: Some(HeadingV { title: seq![], anchor: seq![], level }) }
            } else {
                st
            },
            pass(s),
        ),
        EventV::End(TagV::Heading(_)) => match st.current {
            Some(h) => {
                let done = HeadingV { title: h.title, anchor: anchor_of(h.title), level: h.level };
                let at = last_opener(s, Opener::Heading);
                (
                    TableOfContentsV { current: None },
                    StepV {
                        events: if at >= 0 {
                            s.update(at, EventV::Html(heading_open(h.level, done.anchor)))
                        } else {
                            s
                        },
                        out: Some(seq![OutputV::Heading(done)]),
                        handled: false,
                    },
                )
            },
            None => (st, pass(s)),
        },
        EventV::Text(x) => (toc_titled(st, x), pass(s)),
        EventV::Code(x) => (toc_titled(st, x), pass(s)),
        _ => (st, pass(s)),
    }
}

pub open spec fn toc_titled(st: TableOfContentsV, x: Seq<char>) -> TableOfContentsV {
    TableOfContentsV {
        current: match st.current {
            Some(h) => Some(HeadingV { title: h.title + x, anchor: h.anchor, level: h.level }),
            None => None,
        },
    }
}

impl View for TableOfContents {
    type V = TableOfContentsV;

    open spec fn view(&self) -> TableOfContentsV {
        TableOfContentsV { current: heading_option_view(self.current_heading) }
    }
}

/// The table-of-contents extension and its state.
pub struct TableOfContents {
    /// The heading being read, if any.
    pub current_heading: Option<Heading>,
}

impl TableOfContents {
    pub fn new() -> (r: TableOfContents)
        ensures
            r.current_heading is None,
    {
        TableOfContents { current_heading: None }
    }

    /// Handles one event as `toc_step` says.
    pub fn process_event(&mut self, events: &mut Vec<Event>, event: &Event) -> (r: (
        Option<Vec<Output>>,
        bool,
    ))
        requires
            old(self).current_heading matches Some(h) ==> 1 <= h.level <= 6,
        ensures
            (final(self)@, step_of(final(events)@, r)) == toc_step(
                old(self)@,
                events_view(old(events)@),
                event@,
            ),
            final(self).current_heading matches Some(h) ==> 1 <= h.level <= 6,
    {
        match event {
            Event::Start(Tag::Heading(level)) => {
                if 1 <= *level && *level <= 6 {
                    self.current_heading = Some(
                        Heading { level: *level, anchor: String::new(), title: String::new() },
                    );
                }
                (None, false)
            },
            Event::End(Tag::Heading(_)) => {
                match self.current_heading.take() {
                    Some(mut heading) => {
                        heading.anchor = slugify(heading.title.as_str());
                        let ghost s = events_view(events@);
                        match find_last_opener(events, Opener::Heading) {
                            Some(at) => {
                                proof {
                                    lemma_last_opener_bounds(s, Opener::Heading);
                                }
                                let open = opening_tag(heading.level, heading.anchor.as_str());
                                events.set(at, html(open.as_str()));
                                assert(events_view(events@) =~= s.update(
                                    at as int,
                                    EventV::Html(heading_open(heading.level, heading.anchor@)),
                                ));
                            },
                            None => {},
                        }
                        let out = vec![Output::Heading(heading)];
                        assert(outputs_view(out@) =~= seq![out@[0]@]);
                        (Some(out), false)
                    },
                    None => (None, false),
                }
            },
            Event::Text(x) => {
                self.append_title(x.as_str());
                (None, false)
            },
            Event::Code(x) => {
                self.append_title(x.as_str());
                (None, false)
            },
            _ => (None, false),
        }
    }

    fn append_title(&mut self, x: &str)
        ensures
            title_appended(
                heading_option_view(old(self).current_heading),
                final(self).current_heading,
                x@,
            ),
            final(self).current_heading matches Some(h) ==> old(self).current_heading matches Some(
                g,
            ) && h.level == g.level,
    {
        match self.current_heading.take() {
            Some(mut h) => {
                push_str(&mut h.title, x);
                self.current_heading = Some(h);
            },
            None => {},
        }
    }
}

/// Text met inside a heading is added to its title.
pub open spec fn title_appended(before: Option<HeadingV>, after: Option<Heading>, x: Seq<char>) -> bool {
    match before {
        Some(h) => heading_option_view(after) == Some(
            HeadingV { title: h.title + x, anchor: h.anchor, level: h.level },
        ),
        None => after is None,
    }
}

/// `<hN id="anchor">` for a level from 1 to 6.
fn opening_tag(level: u32, anchor: &str) -> (r: String)
    requires
        1 <= level <= 6,
    ensures
        r@ == heading_open(level, anchor@),
{
    let mut r = "<h".to_string();
    let digit = (('0' as u32) + level) as u8 as char;
    push_char(&mut r, digit);
    push_str(&mut r, " id=\"");
    push_str(&mut r, anchor);
    push_str(&mut r, "\">");
    r
}

/// A plain title: words of lowercase ASCII letters and digits joined by
/// single spaces.
pub open spec fn is_plain_title(t: Seq<char>) -> bool {
    &&& t.len() > 0
    &&& forall|i: int| 0 <= i < t.len() ==> plain_char(#[trigger] t[i])
    &&& t[0] != ' '
    &&& t.last() != ' '
    &&& forall|i: int| 0 <= i < t.len() - 1 && #[trigger] t[i] == ' ' ==> t[i + 1] != ' '
}

pub open spec fn plain_char(c: char) -> bool {
    ('a' <= c <= 'z') || ('0' <= c <= '9') || c == ' '
}

/// `t` with its spaces turned into dashes.
pub open spec fn dashed(t: Seq<char>) -> Seq<char> {
    t.map_values(|c: char| if c == ' ' { '-' } else { c })
}

proof fn lemma_body_dashed(t: Seq<char>, prev_dash: bool)
    requires
        forall|i: int| 0 <= i < t.len() ==> plain_char(#[trigger] t[i]),
        forall|i: int| 0 <= i < t.len() - 1 && #[trigger] t[i] == ' ' ==> t[i + 1] != ' ',
        prev_dash && t.len() > 0 ==> t[0] != ' ',
    ensures
        ascii_slug_body(t, prev_dash) == dashed(t),
    decreases t.len(),
{
    if t.len() > 0 {
        let rest = t.drop_first();
        assert forall|i: int| 0 <= i < rest.len() - 1 && #[trigger] rest[i] == ' ' implies rest[i
            + 1] != ' ' by {
            assert(t[i + 1] == ' ');
        }
        assert forall|i: int| 0 <= i < rest.len() implies plain_char(#[trigger] rest[i]) by {
            assert(plain_char(t[i + 1]));
        }
        if t[0] == ' ' {
            if rest.len() > 0 {
                assert(t[1] != ' ');
            }
        }
        lemma_body_dashed(rest, t[0] == ' ');
        assert(dashed(t) =~= seq![if t[0] == ' ' { '-' } else { t[0] }] + dashed(rest));
    }
}

/// Distinct plain titles get distinct anchors: for such a title the anchor
/// is the title with its spaces turned into dashes, e.g. `my heading` gives
/// `my-heading`. (Titles that differ only in case, or in punctuation, can
/// share an anchor: `My Heading` and `my heading` both give `my-heading`.)
pub proof fn lemma_plain_titles_have_distinct_anchors(t1: Seq<char>, t2: Seq<char>)
    requires
        is_plain_title(t1),
        is_plain_title(t2),
        t1 != t2,
    ensures
        anchor_of(t1) == dashed(t1),
        anchor_of(t2) == dashed(t2),
        anchor_of(t1) != anchor_of(t2),
{
    lemma_plain_anchor(t1);
    lemma_plain_anchor(t2);
    if dashed(t1) == dashed(t2) {
        assert(t1.len() == dashed(t1).len());
        assert forall|i: int| 0 <= i < t1.len() implies t1[i] == t2[i] by {
            assert(dashed(t1)[i] == dashed(t2)[i]);
            assert(plain_char(t1[i]) && plain_char(t2[i]));
        }
        assert(t1 =~= t2);
    }
}

proof fn lemma_plain_anchor(t: Seq<char>)
    requires
        is_plain_title(t),
    ensures
        anchor_of(t) == dashed(t),
{
    assert forall|i: int| 0 <= i < t.len() implies (#[trigger] t[i] as u32) < 128 by {
        assert(plain_char(t[i]));
    }
    lemma_body_dashed(t, true);
    assert(dashed(t).last() == t.last());
    assert(plain_char(t[t.len() - 1]));
}

} // verus!
