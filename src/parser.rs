//! The pipeline driver: each event goes through the text processors, then
//! through the extensions in a fixed order until one claims it.
use vstd::prelude::*;
use crate::callout::CalloutBlock;
use crate::codeblock::CodeBlock;
use crate::emoji::{EmojiConverter, emojify};
use crate::event::{CodeBlockKindV, Event, EventV, Tag, TagV, events_view};
use crate::text::{first_token, first_word};
use crate::fenced::{MathBlock, MermaidBlock};
use crate::link_rewriter::{LinkRewriter, LinkRewriterV, links_step, pairs_view};
use crate::output::{
    Heading, HeadingV, Link, LinkV, Output, OutputV, StepV, headings_view, links_view, outputs_view,
    pass, result_view, step_of,
};
use crate::callout::callout_step;
use crate::codeblock::{code_body, code_step, highlighted};
use crate::fenced::{fence_of, fence_step};
use crate::tabs::{TabsV, tabs_end, tabs_step};
use crate::task_list::tasklist_step;
use crate::toc::{TableOfContentsV, toc_step};
use crate::tabs::Tabs;
use crate::task_list::Tasklist;
use crate::text::str_eq;
use crate::toc::TableOfContents;

verus! {

/// How links are rewritten.
pub struct ParseOptions {
    /// The root that site paths (`/...`) are moved under.
    pub url_root: String,
    /// Substitutions by exact URL; the first rule for a URL wins.
    pub link_rewrite_rules: Vec<(String, String)>,
    /// Query parameters appended to links into the site, in order.
    pub url_params: Vec<(String, String)>,
    pub root_dir: Option<String>,
}

impl ParseOptions {
    /// Root `/`, no rules, no parameters.
    pub fn default() -> (r: ParseOptions)
        ensures
            r.url_root@ == "/"@,
            r.link_rewrite_rules@.len() == 0,
            r.url_params@.len() == 0,
            r.root_dir is None,
    {
        ParseOptions {
            url_root: "/".to_string(),
            link_rewrite_rules: Vec::new(),
            url_params: Vec::new(),
            root_dir: None,
        }
    }
}

/// What the pipeline makes of a document.
pub struct ParsedMarkdown {
    /// The rewritten event buffer, ready to be rendered.
    pub events: Vec<Event>,
    /// The text of the document's first paragraph's first text run.
    pub preview: String,
    pub headings: Vec<Heading>,
    pub links: Vec<Link>,
    /// The optional page features in use, each once: `code`, `math`, `diagram`.
    pub blocks: Vec<String>,
}

pub open spec fn blocks_view(b: Seq<String>) -> Seq<Seq<char>> {
    b.map_values(|s: String| s@)
}

/// `new` begins with `old`.
pub open spec fn extends<T>(new: Seq<T>, old: Seq<T>) -> bool {
    old.len() <= new.len() && forall|i: int| 0 <= i < old.len() ==> new[i] == old[i]
}

/// The events among the outputs, in order.
pub open spec fn output_events(o: Seq<OutputV>) -> Seq<EventV>
    decreases o.len(),
{
    if o.len() == 0 {
        seq![]
    } else {
        output_events(o.drop_last()) + match o.last() {
            OutputV::Event(e) => seq![e],
            _ => seq![],
        }
    }
}

/// The links among the outputs, in order.
pub open spec fn output_links(o: Seq<OutputV>) -> Seq<LinkV>
    decreases o.len(),
{
    if o.len() == 0 {
        seq![]
    } else {
        output_links(o.drop_last()) + match o.last() {
            OutputV::Link(l) => seq![l],
            _ => seq![],
        }
    }
}

/// The headings among the outputs, in order.
pub open spec fn output_headings(o: Seq<OutputV>) -> Seq<HeadingV>
    decreases o.len(),
{
    if o.len() == 0 {
        seq![]
    } else {
        output_headings(o.drop_last()) + match o.last() {
            OutputV::Heading(h) => seq![h],
            _ => seq![],
        }
    }
}

/// The feature set after recording the features among the outputs.
pub open spec fn add_blocks(blocks: Seq<Seq<char>>, o: Seq<OutputV>) -> Seq<Seq<char>>
    decreases o.len(),
{
    if o.len() == 0 {
        blocks
    } else {
        let before = add_blocks(blocks, o.drop_last());
        match o.last() {
            OutputV::Block(b) => if before.contains(b) {
                before
            } else {
                before.push(b)
            },
            _ => before,
        }
    }
}

impl ParsedMarkdown {
    pub fn new() -> (r: ParsedMarkdown)
        ensures
            r.events@.len() == 0,
            r.preview@.len() == 0,
            r.headings@.len() == 0,
            r.links@.len() == 0,
            r.blocks@.len() == 0,
    {
        ParsedMarkdown {
            events: Vec::new(),
            preview: String::new(),
            headings: Vec::new(),
            links: Vec::new(),
            blocks: Vec::new(),
        }
    }

    /// Records a feature unless it is recorded already.
    fn add_block(&mut self, b: String)
        ensures
            blocks_view(final(self).blocks@) == if blocks_view(old(self).blocks@).contains(b@) {
                blocks_view(old(self).blocks@)
            } else {
                blocks_view(old(self).blocks@).push(b@)
            },
            final(self).events == old(self).events,
            final(self).preview == old(self).preview,
            final(self).headings == old(self).headings,
            final(self).links == old(self).links,
    {
        let ghost bv = blocks_view(self.blocks@);
        let mut i: usize = 0;
        while i < self.blocks.len()
            invariant
                bv == blocks_view(self.blocks@),
                i <= bv.len(),
                forall|k: int| 0 <= k < i ==> bv[k] != b@,
            decreases bv.len() - i,
        {
            if str_eq(self.blocks[i].as_str(), b.as_str()) {
                assert(bv[i as int] == b@);
                return;
            }
            i = i + 1;
        }
        assert(!bv.contains(b@));
        self.blocks.push(b);
        assert(blocks_view(self.blocks@) =~= bv.push(b@));
    }

    /// Records what an extension returned: events go to the buffer, links,
    /// headings and features to their lists, in order.
    pub fn handle_output(&mut self, output: Option<Vec<Output>>)
        ensures
            ({
                let o = match result_view(output) {
                    Some(o) => o,
                    None => seq![],
                };
                &&& events_view(final(self).events@) == events_view(old(self).events@)
                    + output_events(o)
                &&& links_view(final(self).links@) == links_view(old(self).links@) + output_links(o)
                &&& headings_view(final(self).headings@) == headings_view(old(self).headings@)
                    + output_headings(o)
                &&& blocks_view(final(self).blocks@) == add_blocks(blocks_view(old(self).blocks@), o)
                &&& final(self).preview == old(self).preview
                &&& blocks_view(old(self).blocks@).no_duplicates() ==> blocks_view(
                    final(self).blocks@,
                ).no_duplicates()
            }),
    {
        proof {
            if blocks_view(self.blocks@).no_duplicates() {
                lemma_add_blocks_unique(blocks_view(self.blocks@), match result_view(output) {
                    Some(o) => o,
                    None => seq![],
                });
            }
        }
        let mut items = match output {
            Some(v) => v,
            None => {
                assert(events_view(self.events@) + output_events(seq![]) =~= events_view(self.events@));
                assert(links_view(self.links@) + output_links(seq![]) =~= links_view(self.links@));
                assert(headings_view(self.headings@) + output_headings(seq![]) =~= headings_view(self.headings@));
                return;
            },
        };
        let ghost o = outputs_view(items@);
        let ghost ev0 = events_view(self.events@);
        let ghost l0 = links_view(self.links@);
        let ghost h0 = headings_view(self.headings@);
        let ghost b0 = blocks_view(self.blocks@);
        let ghost n: int = items@.len() as int;
        let ghost mut done: int = 0;
        assert(ev0 + output_events(o.subrange(0, 0)) =~= ev0);
        assert(l0 + output_links(o.subrange(0, 0)) =~= l0);
        assert(h0 + output_headings(o.subrange(0, 0)) =~= h0);
        assert(o.subrange(0, 0) =~= Seq::<OutputV>::empty());
        while items.len() > 0
            invariant
                n == o.len(),
                0 <= done <= n,
                items@.len() == n - done,
                forall|k: int| 0 <= k < items@.len() ==> #[trigger] items@[k]@ == o[done + k],
                events_view(self.events@) == ev0 + output_events(o.subrange(0, done)),
                links_view(self.links@) == l0 + output_links(o.subrange(0, done)),
                headings_view(self.headings@) == h0 + output_headings(o.subrange(0, done)),
                blocks_view(self.blocks@) == add_blocks(b0, o.subrange(0, done)),
                self.preview == old(self).preview,
            decreases items@.len(),
        {
            let item = items.remove(0);
            let ghost next = o.subrange(0, done + 1);
            assert(next.drop_last() =~= o.subrange(0, done));
            assert(next.last() == item@);
            let ghost evs = events_view(self.events@);
            let ghost ls = links_view(self.links@);
            let ghost hs = headings_view(self.headings@);
            match item {
                Output::Event(e) => {
                    self.events.push(e);
                    assert(events_view(self.events@) =~= evs + seq![e@]);
                },
                Output::Link(l) => {
                    self.links.push(l);
                    assert(links_view(self.links@) =~= ls + seq![l@]);
                },
                Output::Heading(h) => {
                    self.headings.push(h);
                    assert(headings_view(self.headings@) =~= hs + seq![h@]);
                },
                Output::Block(b) => {
                    self.add_block(b);
                },
            }
            proof {
                done = done + 1;
            }
        }
        assert(o.subrange(0, n as int) =~= o);
    }
}

/// The pipeline: the text processor and the extensions, in their order.
pub struct MarkdownParser {
    pub emoji: EmojiConverter,
    pub tasklist: Tasklist,
    pub callout: CalloutBlock,
    pub mermaid: MermaidBlock,
    pub math: MathBlock,
    pub tabs: Tabs,
    pub code: CodeBlock,
    pub links: LinkRewriter,
    pub toc: TableOfContents,
}

/// The state of the pipeline: that of its stateful extensions.
pub ghost struct ParserV {
    pub lists: Seq<usize>,
    pub tabs: TabsV,
    pub links: LinkRewriterV,
    pub toc: TableOfContentsV,
}

impl View for MarkdownParser {
    type V = ParserV;

    open spec fn view(&self) -> ParserV {
        ParserV { lists: self.tasklist.open_lists@, tabs: self.tabs@, links: self.links@, toc: self.toc@ }
    }
}

pub ghost struct ParsedV {
    pub events: Seq<EventV>,
    pub preview: Seq<char>,
    pub headings: Seq<HeadingV>,
    pub links: Seq<LinkV>,
    pub blocks: Seq<Seq<char>>,
}

impl View for ParsedMarkdown {
    type V = ParsedV;

    open spec fn view(&self) -> ParsedV {
        ParsedV {
            events: events_view(self.events@),
            preview: self.preview@,
            headings: headings_view(self.headings@),
            links: links_view(self.links@),
            blocks: blocks_view(self.blocks@),
        }
    }
}

/// Records one extension's step: the buffer it left, then its items.
pub open spec fn record(acc: ParsedV, st: StepV) -> ParsedV {
    let o = match st.out {
        Some(o) => o,
        None => seq![],
    };
    ParsedV {
        events: st.events + output_events(o),
        preview: acc.preview,
        headings: acc.headings + output_headings(o),
        links: acc.links + output_links(o),
        blocks: add_blocks(acc.blocks, o),
    }
}

/// One event through the extensions, in their order (task lists, callouts,
/// diagrams, math, tab groups, code, links, table of contents), each one's
/// step recorded, until one claims the event; an event that none claims is
/// buffered as it is.
pub open spec fn dispatch(p: ParserV, acc: ParsedV, e: EventV) -> (ParserV, ParsedV) {
    let t1 = tasklist_step(p.lists, acc.events, e);
    let p1 = ParserV { lists: t1.0, ..p };
    let s1 = t1.1;
    let a1 = record(acc, s1);
    if s1.handled {
        (p1, a1)
    } else {
        let s2 = callout_step(a1.events, e);
        let a2 = record(a1, s2);
        if s2.handled {
            (p1, a2)
        } else {
            let s3 = fence_step(a2.events, e, "mermaid"@, "diagram"@);
            let a3 = record(a2, s3);
            if s3.handled {
                (p1, a3)
            } else {
                let s4 = fence_step(a3.events, e, "math"@, "math"@);
                let a4 = record(a3, s4);
                if s4.handled {
                    (p1, a4)
                } else {
                    let t5 = tabs_step(p.tabs, a4.events, e);
                    let p5 = ParserV { tabs: t5.0, ..p1 };
                    let a5 = record(a4, t5.1);
                    if t5.1.handled {
                        (p5, a5)
                    } else {
                        let s6 = code_step(a5.events, e);
                        let a6 = record(a5, s6);
                        if s6.handled {
                            (p5, a6)
                        } else {
                            let l7 = links_step(p5.links, a6.events, e);
                            let p7 = ParserV { links: l7.0, ..p5 };
                            let a7 = record(a6, l7.1);
                            if l7.1.handled {
                                (p7, a7)
                            } else {
                                let c8 = toc_step(p7.toc, a7.events, e);
                                let p8 = ParserV { toc: c8.0, ..p7 };
                                let a8 = record(a7, c8.1);
                                if c8.1.handled {
                                    (p8, a8)
                                } else {
                                    (p8, ParsedV { events: a8.events.push(e), ..a8 })
                                }
                            }
                        }
                    }
                }
            }
        }
    }
}

/// A text run after the text processors: emoji shortcodes replaced.
pub open spec fn text_processed(e: EventV) -> EventV {
    match e {
        EventV::Text(t) => EventV::Text(emojify(t)),
        _ => e,
    }
}

/// The pipeline part way through a document: its state, what it has made so
/// far, and whether the next text run is the preview.
pub ghost struct RunV {
    pub parser: ParserV,
    pub parsed: ParsedV,
    pub extract: bool,
}

/// One event of the document: processed as text, taken as the preview when
/// it is the first text run of the first paragraph, then dispatched.
pub open spec fn feed(r: RunV, e: EventV) -> RunV {
    let e2 = text_processed(e);
    let take = r.extract && e2 is Text;
    let acc = if take {
        ParsedV { preview: e2->Text_0, ..r.parsed }
    } else {
        r.parsed
    };
    let extract = if e2 == EventV::Start(TagV::Paragraph) {
        acc.preview.len() == 0
    } else {
        r.extract && !take
    };
    let d = dispatch(r.parser, acc, e2);
    RunV { parser: d.0, parsed: d.1, extract }
}

/// The events of a document, one after the other.
pub open spec fn run(r: RunV, evs: Seq<EventV>) -> RunV
    decreases evs.len(),
{
    if evs.len() == 0 {
        r
    } else {
        run(feed(r, evs[0]), evs.drop_first())
    }
}

/// The end of the document: a tab group still open is closed.
pub open spec fn finish(r: RunV) -> (ParserV, ParsedV) {
    let t = tabs_end(r.parser.tabs, r.parsed.events);
    (
        ParserV { tabs: t.0, ..r.parser },
        record(r.parsed, StepV { events: t.1, out: t.2, handled: false }),
    )
}

pub open spec fn nothing_parsed() -> ParsedV {
    ParsedV { events: seq![], preview: seq![], headings: seq![], links: seq![], blocks: seq![] }
}

/// What the pipeline makes of a document's events.
pub open spec fn parse_events(p: ParserV, evs: Seq<EventV>) -> (ParserV, ParsedV) {
    finish(run(RunV { parser: p, parsed: nothing_parsed(), extract: false }, evs))
}

impl MarkdownParser {
    /// What the pipeline keeps true between events.
    pub open spec fn wf(&self) -> bool {
        self.toc.current_heading matches Some(h) ==> 1 <= h.level <= 6
    }

    /// A pipeline with the given link options, or the default ones.
    pub fn new(options: Option<ParseOptions>) -> (r: MarkdownParser)
        ensures
            r.wf(),
            r@.lists == Seq::<usize>::empty(),
            r@.tabs == (TabsV { group: None, tab: None, in_heading: false }),
            r@.toc == (TableOfContentsV { current: None }),
            r@.links.current is None,
            match options {
                Some(o) => {
                    &&& r@.links.root == o.url_root@
                    &&& r@.links.rules == pairs_view(o.link_rewrite_rules@)
                    &&& r@.links.params == pairs_view(o.url_params@)
                },
                None => {
                    &&& r@.links.root == "/"@
                    &&& r@.links.rules.len() == 0
                    &&& r@.links.params.len() == 0
                },
            },
    {
        let opts = match options {
            Some(o) => o,
            None => ParseOptions::default(),
        };
        MarkdownParser {
            emoji: EmojiConverter,
            tasklist: Tasklist::new(),
            callout: CalloutBlock,
            mermaid: MermaidBlock,
            math: MathBlock,
            tabs: Tabs::new(),
            code: CodeBlock,
            links: LinkRewriter {
                url_root: opts.url_root,
                link_rewrite_rules: opts.link_rewrite_rules,
                url_params: opts.url_params,
                current_link: None,
            },
            toc: TableOfContents::new(),
        }
    }

    /// Sends one event through the extensions as `dispatch` says. Links and
    /// headings already collected stay in place, new ones come after them.
    pub fn process_event(&mut self, parsed: &mut ParsedMarkdown, event: Event)
        requires
            old(self).wf(),
        ensures
            final(self).wf(),
            (final(self)@, final(parsed)@) == dispatch(old(self)@, old(parsed)@, event@),
            extends(links_view(final(parsed).links@), links_view(old(parsed).links@)),
            extends(headings_view(final(parsed).headings@), headings_view(old(parsed).headings@)),
            blocks_view(old(parsed).blocks@).no_duplicates() ==> blocks_view(
                final(parsed).blocks@,
            ).no_duplicates(),
    {
        let ghost p0 = self@;
        let ghost a0 = parsed@;
        let ghost l0 = links_view(parsed.links@);
        let ghost h0 = headings_view(parsed.headings@);
        let ghost e = event@;
        let (o, handled) = self.tasklist.process_event(&mut parsed.events, &event);
        let ghost s1 = step_of(parsed.events@, (o, handled));
        parsed.handle_output(o);
        let ghost a1 = record(a0, s1);
        assert(parsed@ == a1);
        assert(extends(links_view(parsed.links@), l0) && extends(headings_view(parsed.headings@), h0));
        if handled {
            return;
        }
        let (o, handled) = self.callout.process_event(&mut parsed.events, &event);
        let ghost s2 = step_of(parsed.events@, (o, handled));
        parsed.handle_output(o);
        let ghost a2 = record(a1, s2);
        assert(parsed@ == a2);
        assert(extends(links_view(parsed.links@), l0) && extends(headings_view(parsed.headings@), h0));
        if handled {
            return;
        }
        let (o, handled) = self.mermaid.process_event(&mut parsed.events, &event);
        let ghost s3 = step_of(parsed.events@, (o, handled));
        parsed.handle_output(o);
        let ghost a3 = record(a2, s3);
        assert(parsed@ == a3);
        assert(extends(links_view(parsed.links@), l0) && extends(headings_view(parsed.headings@), h0));
        if handled {
            return;
        }
        let (o, handled) = self.math.process_event(&mut parsed.events, &event);
        let ghost s4 = step_of(parsed.events@, (o, handled));
        parsed.handle_output(o);
        let ghost a4 = record(a3, s4);
        assert(parsed@ == a4);
        assert(extends(links_view(parsed.links@), l0) && extends(headings_view(parsed.headings@), h0));
        if handled {
            return;
        }
        let (o, handled) = self.tabs.process_event(&mut parsed.events, &event);
        let ghost s5 = step_of(parsed.events@, (o, handled));
        parsed.handle_output(o);
        let ghost a5 = record(a4, s5);
        assert(parsed@ == a5);
        assert(extends(links_view(parsed.links@), l0) && extends(headings_view(parsed.headings@), h0));
        if handled {
            return;
        }
        let (o, handled) = self.code.process_event(&mut parsed.events, &event);
        let ghost s6 = step_of(parsed.events@, (o, handled));
        parsed.handle_output(o);
        let ghost a6 = record(a5, s6);
        assert(parsed@ == a6);
        assert(extends(links_view(parsed.links@), l0) && extends(headings_view(parsed.headings@), h0));
        if handled {
            return;
        }
        let (o, handled) = self.links.process_event(&mut parsed.events, &event);
        let ghost s7 = step_of(parsed.events@, (o, handled));
        parsed.handle_output(o);
        let ghost a7 = record(a6, s7);
        assert(parsed@ == a7);
        assert(extends(links_view(parsed.links@), l0) && extends(headings_view(parsed.headings@), h0));
        if handled {
            return;
        }
        let (o, handled) = self.toc.process_event(&mut parsed.events, &event);
        let ghost s8 = step_of(parsed.events@, (o, handled));
        parsed.handle_output(o);
        let ghost a8 = record(a7, s8);
        assert(parsed@ == a8);
        assert(extends(links_view(parsed.links@), l0) && extends(headings_view(parsed.headings@), h0));
        if handled {
            return;
        }
        let ghost before = parsed.events@;
        parsed.events.push(event);
        assert(events_view(parsed.events@) =~= events_view(before).push(e));
    }
}

/// Recording features keeps them free of repeats.
pub proof fn lemma_add_blocks_unique(blocks: Seq<Seq<char>>, o: Seq<OutputV>)
    requires
        blocks.no_duplicates(),
    ensures
        add_blocks(blocks, o).no_duplicates(),
    decreases o.len(),
{
    if o.len() > 0 {
        lemma_add_blocks_unique(blocks, o.drop_last());
        let before = add_blocks(blocks, o.drop_last());
        if let OutputV::Block(b) = o.last() {
            if !before.contains(b) {
                assert forall|i: int, j: int|
                    0 <= i < before.push(b).len() && 0 <= j < before.push(b).len() && i != j
                    implies before.push(b)[i] != before.push(b)[j] by {
                    if i == before.len() as int {
                        assert(before[j] != b);
                    } else if j == before.len() as int {
                        assert(before[i] != b);
                    }
                }
            }
        }
    }
}

impl MarkdownParser {
    /// Passes text runs through the text processors: emoji shortcodes.
    pub fn process_text_event(&self, event: Event) -> (r: Event)
        ensures
            r@ == text_processed(event@),
    {
        match event {
            Event::Text(t) => Event::Text(self.emoji.process_text(t.as_str())),
            other => other,
        }
    }

    /// Runs the pipeline over a document's event stream as `parse_events`
    /// says: each event in turn, then what is still open at the end is
    /// closed. Each feature is recorded once.
    pub fn parse(&mut self, input: Vec<Event>) -> (r: ParsedMarkdown)
        requires
            old(self).wf(),
        ensures
            final(self).wf(),
            (final(self)@, r@) == parse_events(old(self)@, events_view(input@)),
            blocks_view(r.blocks@).no_duplicates(),
    {
        let ghost evs = events_view(input@);
        let ghost start = RunV { parser: self@, parsed: nothing_parsed(), extract: false };
        let mut parsed = ParsedMarkdown::new();
        let mut extract_preview = false;
        assert(parsed@ == nothing_parsed()) by {
            assert(events_view(parsed.events@) =~= Seq::<EventV>::empty());
            assert(headings_view(parsed.headings@) =~= Seq::<HeadingV>::empty());
            assert(links_view(parsed.links@) =~= Seq::<LinkV>::empty());
            assert(blocks_view(parsed.blocks@) =~= Seq::<Seq<char>>::empty());
            assert(parsed.preview@ =~= Seq::<char>::empty());
        }
        assert(evs.subrange(0, evs.len() as int) =~= evs);
        let mut i: usize = 0;
        while i < input.len()
            invariant
                evs == events_view(input@),
                i <= evs.len(),
                self.wf(),
                run(start, evs) == run(
                    RunV { parser: self@, parsed: parsed@, extract: extract_preview },
                    evs.subrange(i as int, evs.len() as int),
                ),
                blocks_view(parsed.blocks@).no_duplicates(),
            decreases evs.len() - i,
        {
            let ghost cur = RunV { parser: self@, parsed: parsed@, extract: extract_preview };
            let ghost rest = evs.subrange(i as int, evs.len() as int);
            assert(rest.drop_first() =~= evs.subrange(i + 1, evs.len() as int));
            assert(rest[0] == input@[i as int]@);
            let raw = input[i].copy();
            let event = self.process_text_event(raw);
            let mut take = false;
            if extract_preview {
                if let Event::Text(t) = &event {
                    parsed.preview = t.clone();
                    take = true;
                }
            }
            let next_extract = match &event {
                Event::Start(Tag::Paragraph) => parsed.preview.unicode_len() == 0,
                _ => extract_preview && !take,
            };
            assert(parsed@ == (if cur.extract && text_processed(rest[0]) is Text {
                ParsedV { preview: text_processed(rest[0])->Text_0, ..cur.parsed }
            } else {
                cur.parsed
            }));
            self.process_event(&mut parsed, event);
            extract_preview = next_extract;
            assert(RunV { parser: self@, parsed: parsed@, extract: extract_preview } == feed(cur, rest[0]));
            i = i + 1;
        }
        let ghost last = RunV { parser: self@, parsed: parsed@, extract: extract_preview };
        assert(evs.subrange(evs.len() as int, evs.len() as int) =~= Seq::<EventV>::empty());
        let out = self.tabs.end_of_doc(&mut parsed.events);
        let ghost st = StepV { events: events_view(parsed.events@), out: result_view(out), handled: false };
        proof {
            let o = match result_view(out) {
                Some(o) => o,
                None => seq![],
            };
            lemma_add_blocks_unique(blocks_view(parsed.blocks@), o);
        }
        parsed.handle_output(out);
        assert(parsed@ == record(last.parsed, st));
        parsed
    }
}

proof fn lemma_feed_extends(r: RunV, e: EventV)
    ensures
        extends(feed(r, e).parsed.links, r.parsed.links),
        extends(feed(r, e).parsed.headings, r.parsed.headings),
{
}

/// Links and headings are collected in the order in which the document
/// holds them: going on through more events keeps every link and heading
/// found so far, in place, and adds the later ones after them.
pub proof fn lemma_collected_in_document_order(r: RunV, evs: Seq<EventV>)
    ensures
        extends(run(r, evs).parsed.links, r.parsed.links),
        extends(run(r, evs).parsed.headings, r.parsed.headings),
    decreases evs.len(),
{
    if evs.len() > 0 {
        lemma_feed_extends(r, evs[0]);
        lemma_collected_in_document_order(feed(r, evs[0]), evs.drop_first());
    }
}

proof fn lemma_record_nothing(acc: ParsedV)
    ensures
        record(acc, pass(acc.events)) == acc,
{
    assert(acc.events + output_events(seq![]) =~= acc.events);
    assert(acc.headings + output_headings(seq![]) =~= acc.headings);
    assert(acc.links + output_links(seq![]) =~= acc.links);
}

/// Raw HTML from the source passes through verbatim: no extension claims it
/// or changes anything on its account, and it is buffered as it is.
pub proof fn lemma_raw_html_passes_verbatim(p: ParserV, acc: ParsedV, h: Seq<char>)
    ensures
        dispatch(p, acc, EventV::Html(h)) == (p, ParsedV { events: acc.events.push(EventV::Html(h)), ..acc }),
{
    lemma_record_nothing(acc);
    assert(tasklist_step(p.lists, acc.events, EventV::Html(h)).0 == p.lists);
    assert(tabs_step(p.tabs, acc.events, EventV::Html(h)).0 == p.tabs);
    assert(links_step(p.links, acc.events, EventV::Html(h)).0 == p.links);
    assert(toc_step(p.toc, acc.events, EventV::Html(h)).0 == p.toc);
}

/// A fenced block in a language that is neither reserved (`mermaid`,
/// `math`) nor known to the highlighter stays a standard code block: its
/// opening and closing events are buffered as they are, and nothing else
/// changes.
pub proof fn lemma_plain_code_blocks_untouched(p: ParserV, acc: ParsedV, e: EventV, info: Seq<char>)
    requires
        e == EventV::Start(TagV::CodeBlock(CodeBlockKindV::Fenced(info))) || e == EventV::End(
            TagV::CodeBlock(CodeBlockKindV::Fenced(info)),
        ),
        first_token(info) != "mermaid"@,
        first_token(info) != "math"@,
        e is End ==> match code_body(acc.events) {
            Some(code) => highlighted(first_word(info), code) is None,
            None => true,
        },
    ensures
        dispatch(p, acc, e) == (p, ParsedV { events: acc.events.push(e), ..acc }),
{
    lemma_record_nothing(acc);
    assert(!fence_of(e, true, "mermaid"@) && !fence_of(e, false, "mermaid"@));
    assert(!fence_of(e, true, "math"@) && !fence_of(e, false, "math"@));
    assert(tasklist_step(p.lists, acc.events, e).0 == p.lists);
    assert(tabs_step(p.tabs, acc.events, e).0 == p.tabs);
    assert(links_step(p.links, acc.events, e).0 == p.links);
    assert(toc_step(p.toc, acc.events, e).0 == p.toc);
}

} // verus!
