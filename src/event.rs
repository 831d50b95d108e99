//! The CommonMark event stream that the pipeline consumes and buffers.
//!
//! Events are plain values: the parser that produces them and the renderer
//! that turns the final buffer into HTML live outside the library.
use vstd::prelude::*;

verus! {

/// How a link or an image was written in the source.
#[derive(Debug, Clone, Copy, PartialEq, Eq, Structural)]
pub enum LinkType {
    Inline,
    Reference,
    ReferenceUnknown,
    Collapsed,
    CollapsedUnknown,
    Shortcut,
    ShortcutUnknown,
    Autolink,
    Email,
}

/// Column alignment of a table.
#[derive(Debug, Clone, Copy, PartialEq, Eq, Structural)]
pub enum Alignment {
    Unaligned,
    Left,
    Center,
    Right,
}

#[derive(Debug, Clone, PartialEq)]
pub enum CodeBlockKind {
    Indented,
    /// A fenced block with its info string.
    Fenced(String),
}

/// A structural tag, opened by `Event::Start` and closed by `Event::End`.
#[derive(Debug, Clone, PartialEq)]
pub enum Tag {
    Paragraph,
    Heading(u32),
    BlockQuote,
    CodeBlock(CodeBlockKind),
    List(Option<u64>),
    Item,
    FootnoteDefinition(String),
    Table(Vec<Alignment>),
    TableHead,
    TableRow,
    TableCell,
    Emphasis,
    Strong,
    Strikethrough,
    /// Link type, destination and title.
    Link(LinkType, String, String),
    /// Link type, source and title.
    Image(LinkType, String, String),
}

#[derive(Debug, Clone, PartialEq)]
pub enum Event {
    Start(Tag),
    End(Tag),
    Text(String),
    Code(String),
    Html(String),
    FootnoteReference(String),
    SoftBreak,
    HardBreak,
    Rule,
    TaskListMarker(bool),
}

pub ghost enum CodeBlockKindV {
    Indented,
    Fenced(Seq<char>),
}

pub ghost enum TagV {
    Paragraph,
    Heading(u32),
    BlockQuote,
    CodeBlock(CodeBlockKindV),
    List(Option<u64>),
    Item,
    FootnoteDefinition(Seq<char>),
    Table(Seq<Alignment>),
    TableHead,
    TableRow,
    TableCell,
    Emphasis,
    Strong,
    Strikethrough,
    Link(LinkType, Seq<char>, Seq<char>),
    Image(LinkType, Seq<char>, Seq<char>),
}

/// The mathematical value of an event: its strings as character sequences.
pub ghost enum EventV {
    Start(TagV),
    End(TagV),
    Text(Seq<char>),
    Code(Seq<char>),
    Html(Seq<char>),
    FootnoteReference(Seq<char>),
    SoftBreak,
    HardBreak,
    Rule,
    TaskListMarker(bool),
}

impl View for CodeBlockKind {
    type V = CodeBlockKindV;

    open spec fn view(&self) -> CodeBlockKindV {
        match self {
            CodeBlockKind::Indented => CodeBlockKindV::Indented,
            CodeBlockKind::Fenced(s) => CodeBlockKindV::Fenced(s@),
        }
    }
}

impl View for Tag {
    type V = TagV;

    open spec fn view(&self) -> TagV {
        match self {
            Tag::Paragraph => TagV::Paragraph,
            Tag::Heading(l) => TagV::Heading(*l),
            Tag::BlockQuote => TagV::BlockQuote,
            Tag::CodeBlock(k) => TagV::CodeBlock(k@),
            Tag::List(n) => TagV::List(*n),
            Tag::Item => TagV::Item,
            Tag::FootnoteDefinition(s) => TagV::FootnoteDefinition(s@),
            Tag::Table(a) => TagV::Table(a@),
            Tag::TableHead => TagV::TableHead,
            Tag::TableRow => TagV::TableRow,
            Tag::TableCell => TagV::TableCell,
            Tag::Emphasis => TagV::Emphasis,
            Tag::Strong => TagV::Strong,
            Tag::Strikethrough => TagV::Strikethrough,
            Tag::Link(t, u, ti) => TagV::Link(*t, u@, ti@),
            Tag::Image(t, u, ti) => TagV::Image(*t, u@, ti@),
        }
    }
}

impl View for Event {
    type V = EventV;

    open spec fn view(&self) -> EventV {
        match self {
            Event::Start(t) => EventV::Start(t@),
            Event::End(t) => EventV::End(t@),
            Event::Text(s) => EventV::Text(s@),
            Event::Code(s) => EventV::Code(s@),
            Event::Html(s) => EventV::Html(s@),
            Event::FootnoteReference(s) => EventV::FootnoteReference(s@),
            Event::SoftBreak => EventV::SoftBreak,
            Event::HardBreak => EventV::HardBreak,
            Event::Rule => EventV::Rule,
            Event::TaskListMarker(b) => EventV::TaskListMarker(*b),
        }
    }
}

/// The view of a buffer of events.
pub open spec fn events_view(s: Seq<Event>) -> Seq<EventV> {
    s.map_values(|e: Event| e@)
}

fn copy_alignments(a: &Vec<Alignment>) -> (r: Vec<Alignment>)
    ensures
        r@ == a@,
{
    let mut r: Vec<Alignment> = Vec::new();
    let mut i: usize = 0;
    while i < a.len()
        invariant
            i <= a@.len(),
            r@ == a@.subrange(0, i as int),
        decreases a@.len() - i,
    {
        r.push(a[i]);
        assert(r@ =~= a@.subrange(0, i + 1));
        i = i + 1;
    }
    assert(a@.subrange(0, a@.len() as int) =~= a@);
    r
}

impl CodeBlockKind {
    /// An equal kind.
    pub fn copy(&self) -> (r: CodeBlockKind)
        ensures
            r@ == self@,
    {
        match self {
            CodeBlockKind::Indented => CodeBlockKind::Indented,
            CodeBlockKind::Fenced(s) => CodeBlockKind::Fenced(s.clone()),
        }
    }
}

impl Tag {
    /// An equal tag.
    pub fn copy(&self) -> (r: Tag)
        ensures
            r@ == self@,
    {
        match self {
            Tag::Paragraph => Tag::Paragraph,
            Tag::Heading(l) => Tag::Heading(*l),
            Tag::BlockQuote => Tag::BlockQuote,
            Tag::CodeBlock(k) => Tag::CodeBlock(k.copy()),
            Tag::List(n) => Tag::List(*n),
            Tag::Item => Tag::Item,
            Tag::FootnoteDefinition(s) => Tag::FootnoteDefinition(s.clone()),
            Tag::Table(a) => Tag::Table(copy_alignments(a)),
            Tag::TableHead => Tag::TableHead,
            Tag::TableRow => Tag::TableRow,
            Tag::TableCell => Tag::TableCell,
            Tag::Emphasis => Tag::Emphasis,
            Tag::Strong => Tag::Strong,
            Tag::Strikethrough => Tag::Strikethrough,
            Tag::Link(t, u, ti) => Tag::Link(*t, u.clone(), ti.clone()),
            Tag::Image(t, u, ti) => Tag::Image(*t, u.clone(), ti.clone()),
        }
    }
}

impl Event {
    /// An equal event.
    pub fn copy(&self) -> (r: Event)
        ensures
            r@ == self@,
    {
        match self {
            Event::Start(t) => Event::Start(t.copy()),
            Event::End(t) => Event::End(t.copy()),
            Event::Text(s) => Event::Text(s.clone()),
            Event::Code(s) => Event::Code(s.clone()),
            Event::Html(s) => Event::Html(s.clone()),
            Event::FootnoteReference(s) => Event::FootnoteReference(s.clone()),
            Event::SoftBreak => Event::SoftBreak,
            Event::HardBreak => Event::HardBreak,
            Event::Rule => Event::Rule,
            Event::TaskListMarker(b) => Event::TaskListMarker(*b),
        }
    }
}

/// A raw HTML event holding `s`.
pub fn html(s: &str) -> (r: Event)
    ensures
        r@ == EventV::Html(s@),
{
    Event::Html(s.to_string())
}

/// The HTML event that stands where a consumed event was.
pub fn blank() -> (r: Event)
    ensures
        r@ == EventV::Html(Seq::<char>::empty()),
{
    let r = Event::Html(String::new());
    r
}

} // verus!
