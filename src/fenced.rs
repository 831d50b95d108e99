//! Fenced blocks whose language is reserved for diagrams or math: their body
//! is wrapped in a `div` for the page's scripts to render.
use vstd::prelude::*;
use crate::event::{CodeBlockKind, CodeBlockKindV, Event, EventV, Tag, TagV, events_view, html};
use crate::output::{Output, OutputV, StepV, outputs_view, pass, result_view, step_of};
use crate::text::{first_space_token, first_token, str_eq};

verus! {

/// Whether `e` opens (`start`) or closes a fenced block in language `lang`.
pub open spec fn fence_of(e: EventV, start: bool, lang: Seq<char>) -> bool {
    match e {
        EventV::Start(TagV::CodeBlock(CodeBlockKindV::Fenced(info))) => start && first_token(info)
            == lang,
        EventV::End(TagV::CodeBlock(CodeBlockKindV::Fenced(info))) => !start && first_token(info)
            == lang,
        _ => false,
    }
}

/// Whether `event` opens (`Some(true)`) or closes (`Some(false)`) a fenced
/// block in language `lang`.
pub fn fence_side(event: &Event, lang: &str) -> (r: Option<bool>)
    ensures
        r == Some(true) <==> fence_of(event@, true, lang@),
        r == Some(false) <==> fence_of(event@, false, lang@),
{
    match event {
        Event::Start(Tag::CodeBlock(CodeBlockKind::Fenced(info))) => {
            if str_eq(first_space_token(info.as_str()), lang) {
                Some(true)
            } else {
                None
            }
        },
        Event::End(Tag::CodeBlock(CodeBlockKind::Fenced(info))) => {
            if str_eq(first_space_token(info.as_str()), lang) {
                Some(false)
            } else {
                None
            }
        },
        _ => None,
    }
}

/// The items for a reserved block: its wrapper and feature on opening, the
/// end of the wrapper on closing.
pub open spec fn wrapper_outputs(start: bool, class: Seq<char>, feature: Seq<char>) -> Seq<OutputV> {
    if start {
        seq![
            OutputV::Event(EventV::Html("<div class=\""@ + class + "\">\n"@)),
            OutputV::Block(feature),
        ]
    } else {
        seq![OutputV::Event(EventV::Html("</div>"@))]
    }
}

/// What a reserved-language extension does with `event`.
pub open spec fn wraps(
    event: EventV,
    lang: Seq<char>,
    feature: Seq<char>,
    r: (Option<Vec<Output>>, bool),
) -> bool {
    if fence_of(event, true, lang) {
        result_view(r.0) == Some(wrapper_outputs(true, lang, feature)) && r.1
    } else if fence_of(event, false, lang) {
        result_view(r.0) == Some(wrapper_outputs(false, lang, feature)) && r.1
    } else {
        r.0 is None && !r.1
    }
}

/// What a reserved-language extension does with one event: the opening of
/// a block in its language becomes the wrapper and records the feature, the
/// closing becomes the wrapper's end; the body passes through.
pub open spec fn fence_step(s: Seq<EventV>, e: EventV, lang: Seq<char>, feature: Seq<char>) -> StepV {
    if fence_of(e, true, lang) {
        StepV { events: s, out: Some(wrapper_outputs(true, lang, feature)), handled: true }
    } else if fence_of(e, false, lang) {
        StepV { events: s, out: Some(wrapper_outputs(false, lang, feature)), handled: true }
    } else {
        pass(s)
    }
}

fn wrap(event: &Event, open: &str, feature: &str, lang: &str) -> (r: (Option<Vec<Output>>, bool))
    requires
        open@ == "<div class=\""@ + lang@ + "\">\n"@,
    ensures
        wraps(event@, lang@, feature@, r),
{
    match fence_side(event, lang) {
        Some(true) => {
            let out = vec![Output::Event(html(open)), Output::Block(feature.to_string())];
            assert(outputs_view(out@) =~= wrapper_outputs(true, lang@, feature@));
            (Some(out), true)
        },
        Some(false) => {
            let out = vec![Output::Event(html("</div>"))];
            assert(outputs_view(out@) =~= wrapper_outputs(false, lang@, feature@));
            (Some(out), true)
        },
        None => (None, false),
    }
}

/// The extension for `mermaid` blocks, which the page renders as diagrams.
pub struct MermaidBlock;

impl MermaidBlock {
    /// Wraps a `mermaid` block in `<div class="mermaid">` and records the
    /// `diagram` feature; the block's text passes through.
    pub fn process_event(&mut self, events: &mut Vec<Event>, event: &Event) -> (r: (
        Option<Vec<Output>>,
        bool,
    ))
        ensures
            final(events)@ == old(events)@,
            wraps(event@, "mermaid"@, "diagram"@, r),
            step_of(final(events)@, r) == fence_step(
                events_view(old(events)@),
                event@,
                "mermaid"@,
                "diagram"@,
            ),
    {
        proof {
            reveal_strlit("mermaid");
            reveal_strlit("<div class=\"mermaid\">\n");
            reveal_strlit("<div class=\"");
            reveal_strlit("\">\n");
            assert("<div class=\"mermaid\">\n"@ =~= "<div class=\""@ + "mermaid"@ + "\">\n"@);
        }
        wrap(event, "<div class=\"mermaid\">\n", "diagram", "mermaid")
    }
}

/// The extension for `math` blocks, which the page typesets.
pub struct MathBlock;

impl MathBlock {
    /// Wraps a `math` block in `<div class="math">` and records the `math`
    /// feature; the block's text passes through.
    pub fn process_event(&mut self, events: &mut Vec<Event>, event: &Event) -> (r: (
        Option<Vec<Output>>,
        bool,
    ))
        ensures
            final(events)@ == old(events)@,
            wraps(event@, "math"@, "math"@, r),
            step_of(final(events)@, r) == fence_step(events_view(old(events)@), event@, "math"@, "math"@),
    {
        proof {
            reveal_strlit("math");
            reveal_strlit("<div class=\"math\">\n");
            reveal_strlit("<div class=\"");
            reveal_strlit("\">\n");
            assert("<div class=\"math\">\n"@ =~= "<div class=\""@ + "math"@ + "\">\n"@);
        }
        wrap(event, "<div class=\"math\">\n", "math", "math")
    }
}

/// A fenced block in any other language is left to the other extensions by
/// both the diagram and the math extension, at its start and at its end.
pub proof fn lemma_other_languages_pass_through(event: EventV, r1: (Option<Vec<Output>>, bool), r2: (Option<Vec<Output>>, bool))
    requires
        match event {
            EventV::Start(TagV::CodeBlock(CodeBlockKindV::Fenced(info))) => first_token(info)
                != "mermaid"@ && first_token(info) != "math"@,
            EventV::End(TagV::CodeBlock(CodeBlockKindV::Fenced(info))) => first_token(info)
                != "mermaid"@ && first_token(info) != "math"@,
            _ => true,
        },
        wraps(event, "mermaid"@, "diagram"@, r1),
        wraps(event, "math"@, "math"@, r2),
    ensures
        r1.0 is None && !r1.1,
        r2.0 is None && !r2.1,
{
}

} // verus!
