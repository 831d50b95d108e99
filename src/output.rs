//! What the extensions hand back to the pipeline besides buffered events.
use vstd::prelude::*;
use crate::event::{Event, EventV};

verus! {

/// Where a collected link points.
#[derive(Debug, Clone, PartialEq)]
pub enum UrlType {
    /// A path on the site itself.
    Local(String),
    /// An absolute URL, in its normalised serialisation.
    Remote(String),
}

/// A link met in the document: its text and its target.
#[derive(Debug, Clone, PartialEq)]
pub struct Link {
    pub title: String,
    pub url: UrlType,
}

/// A heading met in the document.
#[derive(Debug, Clone, PartialEq)]
pub struct Heading {
    pub title: String,
    pub anchor: String,
    pub level: u32,
}

/// One item that an extension contributes.
#[derive(Debug, Clone, PartialEq)]
pub enum Output {
    Event(Event),
    Link(Link),
    Heading(Heading),
    /// An optional page feature that the document uses.
    Block(String),
}

pub ghost enum UrlTypeV {
    Local(Seq<char>),
    Remote(Seq<char>),
}

pub ghost struct LinkV {
    pub title: Seq<char>,
    pub url: UrlTypeV,
}

pub ghost struct HeadingV {
    pub title: Seq<char>,
    pub anchor: Seq<char>,
    pub level: u32,
}

pub ghost enum OutputV {
    Event(EventV),
    Link(LinkV),
    Heading(HeadingV),
    Block(Seq<char>),
}

impl View for UrlType {
    type V = UrlTypeV;

    open spec fn view(&self) -> UrlTypeV {
        match self {
            UrlType::Local(s) => UrlTypeV::Local(s@),
            UrlType::Remote(s) => UrlTypeV::Remote(s@),
        }
    }
}

impl View for Link {
    type V = LinkV;

    open spec fn view(&self) -> LinkV {
        LinkV { title: self.title@, url: self.url@ }
    }
}

impl View for Heading {
    type V = HeadingV;

    open spec fn view(&self) -> HeadingV {
        HeadingV { title: self.title@, anchor: self.anchor@, level: self.level }
    }
}

impl View for Output {
    type V = OutputV;

    open spec fn view(&self) -> OutputV {
        match self {
            Output::Event(e) => OutputV::Event(e@),
            Output::Link(l) => OutputV::Link(l@),
            Output::Heading(h) => OutputV::Heading(h@),
            Output::Block(b) => OutputV::Block(b@),
        }
    }
}

pub open spec fn outputs_view(s: Seq<Output>) -> Seq<OutputV> {
    s.map_values(|o: Output| o@)
}

pub open spec fn links_view(s: Seq<Link>) -> Seq<LinkV> {
    s.map_values(|l: Link| l@)
}

pub open spec fn headings_view(s: Seq<Heading>) -> Seq<HeadingV> {
    s.map_values(|h: Heading| h@)
}

/// The view of what an extension returned: its items, if any.
pub open spec fn result_view(r: Option<Vec<Output>>) -> Option<Seq<OutputV>> {
    match r {
        Some(v) => Some(outputs_view(v@)),
        None => None,
    }
}

/// What one extension does with one event: the buffer afterwards, the
/// items it contributes, and whether it claimed the event.
pub ghost struct StepV {
    pub events: Seq<EventV>,
    pub out: Option<Seq<OutputV>>,
    pub handled: bool,
}

/// An extension that leaves the buffer and the event alone.
pub open spec fn pass(s: Seq<EventV>) -> StepV {
    StepV { events: s, out: None, handled: false }
}

/// The step as the extension's results show it.
pub open spec fn step_of(events: Seq<crate::event::Event>, r: (Option<Vec<Output>>, bool)) -> StepV {
    StepV { events: crate::event::events_view(events), out: result_view(r.0), handled: r.1 }
}

} // verus!
