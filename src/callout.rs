//! Callouts: block quotes whose first line names a kind of admonition.
use vstd::prelude::*;
use crate::buffer::{
    Opener, collect_text, ends_paragraph, find_last_opener, first_paragraph_end, last_opener,
    lemma_first_paragraph_end, lemma_last_opener_bounds,
};
use crate::event::{Event, EventV, Tag, TagV, blank, events_view, html};
use crate::output::{Output, OutputV, StepV, outputs_view, pass, step_of};
use crate::text::{
    join_spaced, join_with_spaces, push_str, split_whitespace, str_eq, strings_view, words,
};

verus! {

#[derive(Debug, Clone, Copy, PartialEq, Eq, Structural)]
pub enum CalloutKind {
    Info,
    Success,
    Warning,
    Error,
}

/// The kind that a keyword names, if it names one.
pub open spec fn kind_of_keyword(w: Seq<char>) -> Option<CalloutKind> {
    if w == "info"@ || w == "notice"@ {
        Some(CalloutKind::Info)
    } else if w == "success"@ {
        Some(CalloutKind::Success)
    } else if w == "warning"@ || w == "warn"@ {
        Some(CalloutKind::Warning)
    } else if w == "error"@ {
        Some(CalloutKind::Error)
    } else {
        None
    }
}

impl CalloutKind {
    pub open spec fn spec_name(self) -> Seq<char> {
        match self {
            CalloutKind::Info => "info"@,
            CalloutKind::Success => "success"@,
            CalloutKind::Warning => "warning"@,
            CalloutKind::Error => "error"@,
        }
    }

    /// The CSS class of the kind.
    pub fn name(&self) -> (r: &'static str)
        ensures
            r@ == self.spec_name(),
    {
        match self {
            CalloutKind::Info => "info",
            CalloutKind::Success => "success",
            CalloutKind::Warning => "warning",
            CalloutKind::Error => "error",
        }
    }

    /// The kind named by `word`: `info` or `notice`, `success`, `warning` or
    /// `warn`, `error`.
    pub fn from_keyword(word: &str) -> (r: Option<CalloutKind>)
        ensures
            r == kind_of_keyword(word@),
    {
        if str_eq(word, "info") || str_eq(word, "notice") {
            Some(CalloutKind::Info)
        } else if str_eq(word, "success") {
            Some(CalloutKind::Success)
        } else if str_eq(word, "warning") || str_eq(word, "warn") {
            Some(CalloutKind::Warning)
        } else if str_eq(word, "error") {
            Some(CalloutKind::Error)
        } else {
            None
        }
    }
}

/// A recognised callout: its kind and its title, if it has one.
#[derive(Debug, Clone, PartialEq)]
pub struct Callout {
    pub kind: CalloutKind,
    pub title: Option<String>,
}

/// What a callout's first line declares.
pub ghost struct Declaration {
    pub kind: CalloutKind,
    pub title: Seq<char>,
}

/// The kind and title that a callout's first line declares: a keyword, then
/// the title as the remaining words joined by single spaces.
pub open spec fn callout_of(line: Seq<char>) -> Option<Declaration> {
    let ws = words(line);
    if ws.len() == 0 {
        None
    } else {
        match kind_of_keyword(ws[0]) {
            Some(k) => Some(Declaration { kind: k, title: join_spaced(ws.drop_first()) }),
            None => None,
        }
    }
}

/// The title that a callout of this title text carries: none for an empty text.
pub open spec fn title_option(t: Seq<char>) -> Option<Seq<char>> {
    if t.len() == 0 {
        None
    } else {
        Some(t)
    }
}

pub open spec fn option_view(t: Option<String>) -> Option<Seq<char>> {
    match t {
        Some(s) => Some(s@),
        None => None,
    }
}

impl Callout {
    /// A callout of the given kind whose title is the kind's name.
    pub fn build(kind: &str) -> (r: Result<Callout, &'static str>)
        ensures
            kind_of_keyword(kind@) is None <==> r is Err,
            r matches Ok(c) ==> c.kind == kind_of_keyword(kind@)->0 && option_view(c.title)
                == Some(c.kind.spec_name()),
    {
        match CalloutKind::from_keyword(kind) {
            Some(k) => Ok(Callout { kind: k, title: Some(k.name().to_string()) }),
            None => Err("Unknown callout kind"),
        }
    }

    /// A callout of the given kind with `raw_title` as its title; an empty
    /// title means none.
    pub fn build_with_title(kind: &str, raw_title: &str) -> (r: Result<Callout, &'static str>)
        ensures
            kind_of_keyword(kind@) is None <==> r is Err,
            r matches Ok(c) ==> c.kind == kind_of_keyword(kind@)->0 && option_view(c.title)
                == title_option(raw_title@),
    {
        match CalloutKind::from_keyword(kind) {
            Some(k) => {
                let title = if raw_title.unicode_len() == 0 {
                    None
                } else {
                    Some(raw_title.to_string())
                };
                Ok(Callout { kind: k, title })
            },
            None => Err("Unknown callout kind"),
        }
    }
}

/// Reads a callout declaration from the first line of a block quote.
pub fn parse_callout(text: &str) -> (r: Option<Callout>)
    ensures
        r is Some <==> callout_of(text@) is Some,
        r matches Some(c) ==> c.kind == callout_of(text@)->0.kind && option_view(c.title)
            == title_option(callout_of(text@)->0.title),
{
    let ws = split_whitespace(text);
    if ws.len() == 0 {
        return None;
    }
    let title = join_with_spaces(&ws, 1);
    proof {
        assert(strings_view(ws@).subrange(1, ws@.len() as int) =~= words(text@).drop_first());
    }
    match Callout::build_with_title(ws[0].as_str(), title.as_str()) {
        Ok(c) => Some(c),
        Err(_) => None,
    }
}

/// The opening markup of a callout.
pub open spec fn callout_open(kind: CalloutKind, title: Option<Seq<char>>) -> Seq<char> {
    match title {
        None => "<div class=\"callout "@ + kind.spec_name() + "\"><div class=\"callout-content\">"@,
        Some(t) => "<div class=\"callout "@ + kind.spec_name()
            + "\"><p class=\"callout-title\">"@ + t + "</p><div class=\"callout-content\">"@,
    }
}

fn open_markup(c: &Callout) -> (r: String)
    ensures
        r@ == callout_open(c.kind, option_view(c.title)),
{
    let mut r = "<div class=\"callout ".to_string();
    push_str(&mut r, c.kind.name());
    match &c.title {
        None => push_str(&mut r, "\"><div class=\"callout-content\">"),
        Some(t) => {
            push_str(&mut r, "\"><p class=\"callout-title\">");
            push_str(&mut r, t.as_str());
            push_str(&mut r, "</p><div class=\"callout-content\">");
        },
    }
    r
}

/// The first line of the block quote that opens at `start`: the text up to
/// the end of its first paragraph.
pub open spec fn first_line(s: Seq<EventV>, start: int) -> Seq<char> {
    collect_text(s.subrange(start + 1, first_paragraph_end(s, start + 1)))
}

/// The buffer once the block quote that opens at `start` has become a
/// callout: the opener replaced, the events of the first line blanked.
pub open spec fn callout_buffer(s: Seq<EventV>, start: int, open: Seq<char>) -> Seq<EventV> {
    let p = first_paragraph_end(s, start + 1);
    Seq::new(
        s.len(),
        |k: int|
            if k == start {
                EventV::Html(open)
            } else if start < k <= p {
                EventV::Html(seq![])
            } else {
                s[k]
            },
    )
}

/// What the callout extension does with one event: at the end of a block
/// quote whose first line declares a callout (`callout_of`), the quote is
/// rewritten into the callout's markup and its closing markup follows; any
/// other event is left to the other extensions.
pub open spec fn callout_step(s: Seq<EventV>, e: EventV) -> StepV {
    let start = last_opener(s, Opener::BlockQuote);
    let decl = callout_of(first_line(s, start));
    if e == EventV::End(TagV::BlockQuote) && start >= 0 && decl is Some {
        StepV {
            events: callout_buffer(s, start, callout_open(decl->0.kind, title_option(decl->0.title))),
            out: Some(seq![OutputV::Event(EventV::Html("</div></div>"@))]),
            handled: true,
        }
    } else {
        pass(s)
    }
}

/// The extension that turns block quotes into callouts.
pub struct CalloutBlock;

impl CalloutBlock {
    /// Handles one event as `callout_step` says.
    pub fn process_event(&mut self, events: &mut Vec<Event>, event: &Event) -> (r: (
        Option<Vec<Output>>,
        bool,
    ))
        ensures
            step_of(final(events)@, r) == callout_step(events_view(old(events)@), event@),
    {
        let is_end = match event {
            Event::End(Tag::BlockQuote) => true,
            _ => false,
        };
        if !is_end {
            return (None, false);
        }
        let ghost s = events_view(events@);
        let start = match find_last_opener(events, Opener::BlockQuote) {
            Some(i) => i,
            None => return (None, false),
        };
        proof {
            lemma_last_opener_bounds(s, Opener::BlockQuote);
            lemma_first_paragraph_end(s, start + 1);
        }
        let n = events.len();
        assert(start < n);
        let mut title = String::new();
        let mut i = start + 1;
        while i < events.len()
            invariant
                s == events_view(events@),
                start < s.len(),
                start + 1 <= i <= s.len(),
                forall|k: int| start + 1 <= k < i ==> !ends_paragraph(#[trigger] s[k]),
                title@ == collect_text(s.subrange(start + 1, i as int)),
            ensures
                i == s.len() || ends_paragraph(s[i as int]),
            decreases s.len() - i,
        {
            let ghost t = s.subrange(start + 1, i + 1);
            assert(t.drop_last() =~= s.subrange(start + 1, i as int));
            assert(t.last() == events@[i as int]@);
            match &events[i] {
                Event::End(Tag::Paragraph) => {
                    break;
                },
                Event::Text(x) => push_str(&mut title, x.as_str()),
                Event::Code(x) => push_str(&mut title, x.as_str()),
                _ => {},
            }
            i = i + 1;
        }
        proof {
            assert(i == first_paragraph_end(s, start + 1)) by {
                if i < s.len() && !ends_paragraph(s[i as int]) {
                    assert(false);
                }
                if first_paragraph_end(s, start + 1) < i {
                    let p = first_paragraph_end(s, start + 1);
                    assert(!ends_paragraph(s[p]));
                }
            }
        }
        let callout = match parse_callout(title.as_str()) {
            Some(c) => c,
            None => return (None, false),
        };
        let p = i;
        let mut k = start + 1;
        while k < events.len() && k <= p
            invariant
                s.len() == events@.len(),
                start < s.len(),
                p == first_paragraph_end(s, start + 1),
                start + 1 <= k,
                k <= p + 1,
                forall|j: int|
                    0 <= j < s.len() ==> #[trigger] events@[j]@ == (if start < j < k {
                        EventV::Html(seq![])
                    } else {
                        s[j]
                    }),
            decreases s.len() - k,
        {
            events.set(k, blank());
            k = k + 1;
        }
        events.set(start, html(open_markup(&callout).as_str()));
        proof {
            let want = callout_buffer(
                s,
                start as int,
                callout_open(callout.kind, option_view(callout.title)),
            );
            assert(events_view(events@) =~= want);
        }
        let closing = vec![Output::Event(html("</div></div>"))];
        proof {
            assert(outputs_view(closing@) =~= seq![OutputV::Event(EventV::Html("</div></div>"@))]);
        }
        (Some(closing), true)
    }
}

} // verus!
