//! Syntax highlighting of fenced code blocks.
use vstd::prelude::*;
use crate::event::{CodeBlockKind, Event, EventV, Tag, TagV, CodeBlockKindV, events_view, html};
use crate::text::{first_word, first_whitespace_word};
use crate::output::{Output, OutputV, StepV, outputs_view, pass, step_of};
use syntect::html::{ClassStyle, ClassedHTMLGenerator};
use syntect::parsing::SyntaxSet;
use syntect::util::LinesWithEndings;

verus! {

/// The classed HTML that the highlighter makes of `code` in the language
/// that `token` names, if it knows that language.
pub uninterp spec fn highlighted(token: Seq<char>, code: Seq<char>) -> Option<Seq<char>>;

pub open spec fn string_option_view(s: Option<String>) -> Option<Seq<char>> {
    match s {
        Some(x) => Some(x@),
        None => None,
    }
}

/// Relies on syntect: `SyntaxSet::load_defaults_newlines`,
/// `find_syntax_by_token`, and `ClassedHTMLGenerator`, which turns each line
/// into classed `<span>` runs, keeps count of the spans left open across
/// lines and closes them at the end. None when no syntax matches the token
/// or a line fails to parse; the result depends on the token and code alone.
#[verifier::external_body]
fn highlight(token: &str, code: &str) -> (r: Option<String>)
    ensures
        string_option_view(r) == highlighted(token@, code@),
{
    let ss = SyntaxSet::load_defaults_newlines();
    let syntax = ss.find_syntax_by_token(token)?;
    let mut generator = ClassedHTMLGenerator::new_with_class_style(syntax, &ss, ClassStyle::Spaced);
    for line in LinesWithEndings::from(code) {
        generator.parse_html_for_line_which_includes_newline(line).ok()?;
    }
    Some(generator.finalize())
}

/// The code body that a fenced block leaves as the last buffered event.
pub open spec fn code_body(s: Seq<EventV>) -> Option<Seq<char>> {
    if s.len() > 0 && s.last() is Text {
        Some(s.last()->Text_0)
    } else {
        None
    }
}

/// What the extension does at the end of a fenced block, given what the
/// highlighter made of its body: with highlighted markup the body becomes
/// that markup, the block's end is re-emitted and the `code` feature recorded.
pub open spec fn highlight_step(s: Seq<EventV>, e: EventV, h: Option<Seq<char>>) -> StepV {
    if e is End && e->End_0 is CodeBlock && e->End_0->CodeBlock_0 is Fenced && code_body(s) is Some
        && h is Some {
        StepV {
            events: s.update(s.len() - 1, EventV::Html(h->0)),
            out: Some(seq![OutputV::Event(e), OutputV::Block("code"@)]),
            handled: true,
        }
    } else {
        pass(s)
    }
}

/// What the code-highlighting extension does with one event: the body of a
/// fenced block whose language (the first whitespace-delimited word of its
/// info string) the highlighter knows becomes its highlighted markup.
pub open spec fn code_step(s: Seq<EventV>, e: EventV) -> StepV {
    let h = match e {
        EventV::End(TagV::CodeBlock(CodeBlockKindV::Fenced(info))) => match code_body(s) {
            Some(code) => highlighted(first_word(info), code),
            None => None,
        },
        _ => None,
    };
    highlight_step(s, e, h)
}

/// The code-highlighting extension.
pub struct CodeBlock;

impl CodeBlock {
    /// Handles one event as `code_step` says.
    pub fn process_event(&mut self, events: &mut Vec<Event>, event: &Event) -> (r: (
        Option<Vec<Output>>,
        bool,
    ))
        ensures
            step_of(final(events)@, r) == code_step(events_view(old(events)@), event@),
    {
        let mut result: Option<String> = None;
        if let Event::End(Tag::CodeBlock(CodeBlockKind::Fenced(info))) = event {
            if events.len() > 0 {
                if let Event::Text(code) = &events[events.len() - 1] {
                    let lang = first_whitespace_word(info.as_str());
                    result = highlight(lang.as_str(), code.as_str());
                }
            }
        }
        apply_highlight(events, event, result)
    }
}

/// Puts highlighted markup in place of a fenced block's body at its end.
pub fn apply_highlight(events: &mut Vec<Event>, event: &Event, highlighted: Option<String>) -> (r: (
    Option<Vec<Output>>,
    bool,
))
    ensures
        step_of(final(events)@, r) == highlight_step(
            events_view(old(events)@),
            event@,
            string_option_view(highlighted),
        ),
{
    let ghost s = events_view(events@);
    let is_fence_end = match event {
        Event::End(Tag::CodeBlock(CodeBlockKind::Fenced(_))) => true,
        _ => false,
    };
    if !is_fence_end || events.len() == 0 {
        return (None, false);
    }
    let last = events.len() - 1;
    let is_text = match &events[last] {
        Event::Text(_) => true,
        _ => false,
    };
    if !is_text {
        return (None, false);
    }
    match highlighted {
        Some(markup) => {
            events.set(last, Event::Html(markup));
            assert(events_view(events@) =~= s.update(last as int, events@[last as int]@));
            let out = vec![Output::Event(event.copy()), Output::Block("code".to_string())];
            assert(outputs_view(out@) =~= seq![OutputV::Event(event@), OutputV::Block("code"@)]);
            (Some(out), true)
        },
        None => (None, false),
    }
}

} // verus!
