//! Tab groups: headings whose sole link points at `#/tab/<id>` declare tabs.
use vstd::prelude::*;
use crate::buffer::{Opener, last_opener, lemma_last_opener_bounds, opens};
use crate::event::{Event, EventV, LinkType, Tag, TagV, blank, events_view, html};
use crate::output::{Output, OutputV, StepV, outputs_view, pass, result_view, step_of};
use crate::text::{find_from, has_prefix, lemma_find_from_bounds, position_from, push_str, starts_with};

verus! {

/// One declared tab.
#[derive(Debug, Clone, PartialEq)]
pub struct Tab {
    pub id: String,
    pub title: String,
    pub is_active: bool,
}

/// An open group: where its tab strip placeholder sits, and its tabs so far.
#[derive(Debug, Clone, PartialEq)]
pub struct TabGroup {
    /// Buffer position of the group's opening markup; the placeholder
    /// follows it.
    pub index: usize,
    pub tabs: Vec<Tab>,
}

pub ghost struct TabV {
    pub id: Seq<char>,
    pub title: Seq<char>,
    pub is_active: bool,
}

pub ghost struct TabGroupV {
    pub index: usize,
    pub tabs: Seq<TabV>,
}

impl View for Tab {
    type V = TabV;

    open spec fn view(&self) -> TabV {
        TabV { id: self.id@, title: self.title@, is_active: self.is_active }
    }
}

impl View for TabGroup {
    type V = TabGroupV;

    open spec fn view(&self) -> TabGroupV {
        TabGroupV { index: self.index, tabs: self.tabs@.map_values(|t: Tab| t@) }
    }
}

pub open spec fn tab_option_view(t: Option<Tab>) -> Option<TabV> {
    match t {
        Some(x) => Some(x@),
        None => None,
    }
}

pub open spec fn group_option_view(g: Option<TabGroup>) -> Option<TabGroupV> {
    match g {
        Some(x) => Some(x@),
        None => None,
    }
}

pub open spec fn active_class(active: bool) -> Seq<char> {
    if active {
        "active"@
    } else {
        seq![]
    }
}

/// The id that a tab link declares: what follows `#/tab/` up to the next `/`.
pub open spec fn tab_id_of(url: Seq<char>) -> Seq<char> {
    url.subrange(6, find_from(url, '/', 6))
}

/// Whether a link of this type and destination declares a tab.
pub open spec fn is_tab_link(t: LinkType, url: Seq<char>) -> bool {
    t == LinkType::Inline && has_prefix(url, "#/tab/"@)
}

/// The markup that opens a tab's panel.
pub open spec fn panel_markup(active: bool, id: Seq<char>) -> Seq<char> {
    "<div class=\"tab-panel "@ + active_class(active) + "\" data-tab-id=\""@ + id + "\">"@
}

/// The label of a tab in the tab strip.
pub open spec fn label_markup(t: TabV) -> Seq<char> {
    "<label class=\""@ + active_class(t.is_active) + "\" id=\""@ + t.id + "\" title=\""@ + t.title
        + "\" role=\"tab\">"@ + t.title + "</label>"@
}

/// The strip entries of `tabs`, three events per tab.
pub open spec fn strip_items(tabs: Seq<TabV>) -> Seq<EventV>
    decreases tabs.len(),
{
    if tabs.len() == 0 {
        seq![]
    } else {
        strip_items(tabs.drop_last()) + seq![
            EventV::Html("<li role=\"presentation\">"@),
            EventV::Html(label_markup(tabs.last())),
            EventV::Html("</li>"@),
        ]
    }
}

/// The rendered tab strip of a group.
pub open spec fn tab_strip(tabs: Seq<TabV>) -> Seq<EventV> {
    seq![EventV::Html("<ul class=\"tab-list\" role=\"tablist\">"@)] + strip_items(tabs) + seq![
        EventV::Html("</ul>"@),
    ]
}

/// The buffer once the placeholder at `at` has been replaced by `strip`;
/// a buffer without that position is left as it is.
pub open spec fn splice_at(s: Seq<EventV>, at: int, strip: Seq<EventV>) -> Seq<EventV> {
    if 0 <= at < s.len() {
        s.subrange(0, at) + strip + s.subrange(at + 1, s.len() as int)
    } else {
        s
    }
}

/// The items that close a group.
pub open spec fn closing_outputs() -> Seq<OutputV> {
    seq![OutputV::Event(EventV::Html("</div>"@)), OutputV::Event(EventV::Html("</div>"@))]
}

/// The buffer once a tab heading has been consumed: the last heading opener
/// and every non-HTML event after it blanked.
pub open spec fn consume_heading(s: Seq<EventV>) -> Seq<EventV> {
    let h = last_opener(s, Opener::Heading);
    Seq::new(
        s.len(),
        |k: int|
            if k == h || (k > h && !(s[k] is Html)) {
                EventV::Html(seq![])
            } else {
                s[k]
            },
    )
}

/// The items emitted on a tab link: the group's opening markup and
/// placeholder when no group is open, the end of the previous panel when
/// this is not the group's first tab, then the new panel.
pub open spec fn tab_link_outputs(opened: bool, active: bool, id: Seq<char>) -> Seq<OutputV> {
    (if opened {
        seq![
            OutputV::Event(EventV::Html("<div class=\"tabgroup\">"@)),
            OutputV::Event(EventV::Html("<tabstrip/>"@)),
        ]
    } else {
        seq![]
    }) + (if !active {
        seq![OutputV::Event(EventV::Html("</div>"@))]
    } else {
        seq![]
    }) + seq![OutputV::Event(EventV::Html(panel_markup(active, id)))]
}

fn panel_html(active: bool, id: &str) -> (r: Event)
    ensures
        r@ == EventV::Html(panel_markup(active, id@)),
{
    let mut s = "<div class=\"tab-panel ".to_string();
    if active {
        push_str(&mut s, "active");
    }
    push_str(&mut s, "\" data-tab-id=\"");
    push_str(&mut s, id);
    push_str(&mut s, "\">");
    proof {
        if !active {
            assert("<div class=\"tab-panel "@ + active_class(active) =~= "<div class=\"tab-panel "@);
        }
    }
    html(s.as_str())
}

fn label_html(t: &Tab) -> (r: Event)
    ensures
        r@ == EventV::Html(label_markup(t@)),
{
    let mut s = "<label class=\"".to_string();
    if t.is_active {
        push_str(&mut s, "active");
    }
    push_str(&mut s, "\" id=\"");
    push_str(&mut s, t.id.as_str());
    push_str(&mut s, "\" title=\"");
    push_str(&mut s, t.title.as_str());
    push_str(&mut s, "\" role=\"tab\">");
    push_str(&mut s, t.title.as_str());
    push_str(&mut s, "</label>");
    proof {
        if !t.is_active {
            assert("<label class=\""@ + active_class(t.is_active) =~= "<label class=\""@);
        }
    }
    html(s.as_str())
}

/// The rendered tab strip of `tabs`.
pub fn render_tab_strip(tabs: &Vec<Tab>) -> (r: Vec<Event>)
    ensures
        events_view(r@) == tab_strip(tabs@.map_values(|t: Tab| t@)),
{
    let ghost tv = tabs@.map_values(|t: Tab| t@);
    let mut r: Vec<Event> = Vec::new();
    r.push(html("<ul class=\"tab-list\" role=\"tablist\">"));
    let mut i: usize = 0;
    while i < tabs.len()
        invariant
            tv == tabs@.map_values(|t: Tab| t@),
            i <= tabs@.len(),
            events_view(r@) == seq![EventV::Html("<ul class=\"tab-list\" role=\"tablist\">"@)]
                + strip_items(tv.subrange(0, i as int)),
        decreases tabs@.len() - i,
    {
        let ghost before = events_view(r@);
        r.push(html("<li role=\"presentation\">"));
        r.push(label_html(&tabs[i]));
        r.push(html("</li>"));
        proof {
            let t = tv.subrange(0, i + 1);
            assert(t.drop_last() =~= tv.subrange(0, i as int));
            assert(events_view(r@) =~= before + seq![
                EventV::Html("<li role=\"presentation\">"@),
                EventV::Html(label_markup(t.last())),
                EventV::Html("</li>"@),
            ]);
        }
        i = i + 1;
    }
    let ghost before = events_view(r@);
    r.push(html("</ul>"));
    assert(tv.subrange(0, tabs@.len() as int) =~= tv);
    assert(events_view(r@) =~= before + seq![EventV::Html("</ul>"@)]);
    r
}

/// Closes a group: its placeholder becomes the rendered tab strip, and the
/// items that close the last panel and the group are returned.
pub fn close_tabgroup(events: &mut Vec<Event>, tabgroup: &TabGroup) -> (r: Vec<Output>)
    ensures
        events_view(final(events)@) == splice_at(
            events_view(old(events)@),
            tabgroup.index + 1,
            tab_strip(tabgroup@.tabs),
        ),
        outputs_view(r@) == closing_outputs(),
{
    let ghost s = events_view(events@);
    if tabgroup.index < events.len() && tabgroup.index + 1 < events.len() {
        let idx = tabgroup.index + 1;
        let mut strip = render_tab_strip(&tabgroup.tabs);
        let mut tail = events.split_off(idx);
        tail.remove(0);
        events.append(&mut strip);
        events.append(&mut tail);
        proof {
            assert(events_view(events@) =~= splice_at(s, idx as int, tab_strip(tabgroup@.tabs)));
        }
    }
    let r = vec![Output::Event(html("</div>")), Output::Event(html("</div>"))];
    assert(outputs_view(r@) =~= closing_outputs());
    r
}

pub ghost struct TabsV {
    pub group: Option<TabGroupV>,
    pub tab: Option<TabV>,
    pub in_heading: bool,
}

/// The group once a tab link is declared in it: a new, empty group when none
/// is open; else the open group, with the tab still being read (declared in
/// the same heading) recorded first.
pub open spec fn group_for_link(st: TabsV, at: usize) -> TabGroupV {
    match st.group {
        None => TabGroupV { index: at, tabs: seq![] },
        Some(g) => TabGroupV {
            index: g.index,
            tabs: match st.tab {
                Some(t) => g.tabs.push(t),
                None => g.tabs,
            },
        },
    }
}

/// The state of the tab-group extension and what it does with one event:
/// - a tab link inside a heading opens a group if none is open, closes the
///   previous panel and opens the tab's panel; the group's first declared
///   tab is the only active one;
/// - text and code inside a tab heading make up the tab's title;
/// - the end of a tab heading records the tab and blanks the heading;
/// - a thematic break closes the open group.
pub open spec fn tabs_step(st: TabsV, s: Seq<EventV>, e: EventV) -> (TabsV, StepV) {
    match e {
        EventV::Start(TagV::Heading(_)) => (TabsV { in_heading: true, ..st }, pass(s)),
        EventV::Start(TagV::Link(lt, url, _)) => if is_tab_link(lt, url) && st.in_heading {
            let opened = st.group is None;
            let group = group_for_link(st, s.len() as usize);
            let active = group.tabs.len() == 0;
            (
                TabsV {
                    group: Some(group),
                    tab: Some(TabV { id: tab_id_of(url), title: seq![], is_active: active }),
                    in_heading: true,
                },
                StepV {
                    events: s,
                    out: Some(tab_link_outputs(opened, active, tab_id_of(url))),
                    handled: true,
                },
            )
        } else {
            (st, pass(s))
        },
        EventV::Rule => match st.group {
            Some(g) => (
                TabsV { group: None, tab: None, in_heading: st.in_heading },
                StepV {
                    events: splice_at(s, g.index + 1, tab_strip(g.tabs)),
                    out: Some(closing_outputs()),
                    handled: true,
                },
            ),
            None => (st, pass(s)),
        },
        EventV::End(TagV::Heading(_)) => match (st.group, st.tab) {
            (Some(g), Some(t)) => (
                TabsV {
                    group: Some(TabGroupV { index: g.index, tabs: g.tabs.push(t) }),
                    tab: None,
                    in_heading: false,
                },
                StepV { events: consume_heading(s), out: None, handled: true },
            ),
            _ => (TabsV { in_heading: false, ..st }, pass(s)),
        },
        EventV::Text(x) => (tabs_titled(st, x), pass(s)),
        EventV::Code(x) => (tabs_titled(st, x), pass(s)),
        _ => (st, pass(s)),
    }
}

/// Text met inside a tab heading is added to the tab's title.
pub open spec fn tabs_titled(st: TabsV, x: Seq<char>) -> TabsV {
    TabsV {
        group: st.group,
        in_heading: st.in_heading,
        tab: match st.tab {
            Some(t) => Some(TabV { id: t.id, title: t.title + x, is_active: t.is_active }),
            None => None,
        },
    }
}

/// What the extension does at the end of the document: an open group is
/// closed as a thematic break would close it.
pub open spec fn tabs_end(st: TabsV, s: Seq<EventV>) -> (TabsV, Seq<EventV>, Option<Seq<OutputV>>) {
    match st.group {
        Some(g) => (
            TabsV { group: None, tab: None, in_heading: st.in_heading },
            splice_at(s, g.index + 1, tab_strip(g.tabs)),
            Some(closing_outputs()),
        ),
        None => (st, s, None),
    }
}

impl View for Tabs {
    type V = TabsV;

    open spec fn view(&self) -> TabsV {
        TabsV {
            group: group_option_view(self.current_tabgroup),
            tab: tab_option_view(self.current_tab),
            in_heading: self.in_heading,
        }
    }
}

/// The tab-group extension and its state.
pub struct Tabs {
    pub current_tabgroup: Option<TabGroup>,
    pub current_tab: Option<Tab>,
    /// Whether a heading is open.
    pub in_heading: bool,
}

impl Tabs {
    /// No group open.
    pub fn new() -> (r: Tabs)
        ensures
            r.current_tabgroup is None,
            r.current_tab is None,
            !r.in_heading,
    {
        Tabs { current_tabgroup: None, current_tab: None, in_heading: false }
    }

    /// Handles one event as `tabs_step` says.
    pub fn process_event(&mut self, events: &mut Vec<Event>, event: &Event) -> (r: (
        Option<Vec<Output>>,
        bool,
    ))
        ensures
            (final(self)@, step_of(final(events)@, r)) == tabs_step(
                old(self)@,
                events_view(old(events)@),
                event@,
            ),
    {
        match event {
            Event::Start(Tag::Heading(_)) => {
                self.in_heading = true;
            },
            Event::Start(Tag::Link(LinkType::Inline, url, _)) => {
                if self.in_heading && starts_with(url.as_str(), "#/tab/") {
                    return self.open_tab(events, url.as_str());
                }
            },
            Event::Rule => {
                match self.current_tabgroup.take() {
                    Some(group) => {
                        self.current_tab = None;
                        let out = close_tabgroup(events, &group);
                        return (Some(out), true);
                    },
                    None => {},
                }
            },
            Event::End(Tag::Heading(_)) => {
                self.in_heading = false;
                if self.current_tabgroup.is_some() && self.current_tab.is_some() {
                    let tab = self.current_tab.take().unwrap();
                    let mut group = self.current_tabgroup.take().unwrap();
                    let ghost before = group@.tabs;
                    group.tabs.push(tab);
                    assert(group@.tabs =~= before.push(tab@));
                    self.current_tabgroup = Some(group);
                    blank_heading(events);
                    return (None, true);
                }
            },
            Event::Text(x) => {
                self.append_title(x.as_str());
            },
            Event::Code(x) => {
                self.append_title(x.as_str());
            },
            _ => {},
        }
        (None, false)
    }

    fn append_title(&mut self, x: &str)
        ensures
            text_appended(*old(self), *final(self), x@),
    {
        match self.current_tab.take() {
            Some(mut tab) => {
                push_str(&mut tab.title, x);
                self.current_tab = Some(tab);
            },
            None => {},
        }
    }

    fn open_tab(&mut self, events: &mut Vec<Event>, url: &str) -> (r: (Option<Vec<Output>>, bool))
        requires
            has_prefix(url@, "#/tab/"@),
            old(self).in_heading,
        ensures
            ({
                let st = old(self)@;
                let opened = st.group is None;
                let group = group_for_link(st, old(events)@.len() as usize);
                let active = group.tabs.len() == 0;
                &&& final(self)@ == (TabsV {
                    group: Some(group),
                    tab: Some(TabV { id: tab_id_of(url@), title: seq![], is_active: active }),
                    in_heading: true,
                })
                &&& final(events)@ == old(events)@
                &&& result_view(r.0) == Some(tab_link_outputs(opened, active, tab_id_of(url@)))
                &&& r.1
            }),
    {
        proof {
            reveal_strlit("#/tab/");
            lemma_find_from_bounds(url@, '/', 6);
        }
        let end = position_from(url, '/', 6);
        let id = url.substring_char(6, end);
        let mut out: Vec<Output> = Vec::new();
        let opened = self.current_tabgroup.is_none();
        let pending = self.current_tab.take();
        match self.current_tabgroup.take() {
            None => {
                self.current_tabgroup = Some(TabGroup { index: events.len(), tabs: Vec::new() });
                out.push(Output::Event(html("<div class=\"tabgroup\">")));
                out.push(Output::Event(html("<tabstrip/>")));
            },
            Some(mut g) => {
                match pending {
                    Some(t) => {
                        let ghost before = g@.tabs;
                        g.tabs.push(t);
                        assert(g@.tabs =~= before.push(t@));
                    },
                    None => {},
                }
                self.current_tabgroup = Some(g);
            },
        }
        let is_active = match &self.current_tabgroup {
            Some(g) => g.tabs.len() == 0,
            None => false,
        };
        if !is_active {
            out.push(Output::Event(html("</div>")));
        }
        self.current_tab = Some(Tab { id: id.to_string(), title: String::new(), is_active });
        out.push(Output::Event(panel_html(is_active, id)));
        proof {
            assert(outputs_view(out@) =~= tab_link_outputs(opened, is_active, tab_id_of(url@)));
            if opened {
                assert(self.current_tabgroup->0@.tabs =~= Seq::<TabV>::empty());
            }
        }
        (Some(out), true)
    }

    /// At the end of the document, closes a group that is still open.
    pub fn end_of_doc(&mut self, events: &mut Vec<Event>) -> (r: Option<Vec<Output>>)
        ensures
            (final(self)@, events_view(final(events)@), result_view(r)) == tabs_end(
                old(self)@,
                events_view(old(events)@),
            ),
    {
        match self.current_tabgroup.take() {
            Some(group) => {
                self.current_tab = None;
                Some(close_tabgroup(events, &group))
            },
            None => None,
        }
    }
}

/// Text met inside a tab heading is added to the tab's title.
pub open spec fn text_appended(before: Tabs, after: Tabs, x: Seq<char>) -> bool {
    &&& after.current_tabgroup == before.current_tabgroup
    &&& after.in_heading == before.in_heading
    &&& match before.current_tab {
        Some(t) => tab_option_view(after.current_tab) == Some(
            TabV { id: t.id@, title: t.title@ + x, is_active: t.is_active },
        ),
        None => after.current_tab is None,
    }
}

/// Blanks the heading that declared a tab, keeping the HTML that the tab
/// link contributed.
fn blank_heading(events: &mut Vec<Event>)
    ensures
        events_view(final(events)@) == consume_heading(events_view(old(events)@)),
{
    let ghost s = events_view(events@);
    proof {
        lemma_last_opener_bounds(s, Opener::Heading);
    }
    let ghost h = last_opener(s, Opener::Heading);
    let mut n = events.len();
    while n > 0
        invariant
            s.len() == events@.len(),
            h == last_opener(s, Opener::Heading),
            -1 <= h < s.len(),
            forall|k: int| h < k < s.len() ==> !opens(#[trigger] s[k], Opener::Heading),
            h >= 0 ==> opens(s[h], Opener::Heading),
            h < n <= s.len(),
            forall|k: int|
                0 <= k < s.len() ==> #[trigger] events@[k]@ == (if k >= n && k > h && !(
                s[k] is Html) {
                    EventV::Html(seq![])
                } else {
                    s[k]
                }),
        ensures
            n == h + 1,
            forall|k: int|
                0 <= k < s.len() ==> #[trigger] events@[k]@ == (if k >= n && k > h && !(
                s[k] is Html) {
                    EventV::Html(seq![])
                } else {
                    s[k]
                }),
        decreases n,
    {
        let i = n - 1;
        assert(events@[i as int]@ == s[i as int]);
        let is_heading = match &events[i] {
            Event::Start(Tag::Heading(_)) => true,
            _ => false,
        };
        assert(is_heading == opens(s[i as int], Opener::Heading));
        if is_heading {
            break;
        }
        let is_html = match &events[i] {
            Event::Html(_) => true,
            _ => false,
        };
        assert(is_html == s[i as int] is Html);
        if !is_html {
            events.set(i, blank());
        }
        n = i;
    }
    if n > 0 {
        events.set(n - 1, blank());
    }
    proof {
        assert(events_view(events@) =~= consume_heading(s));
    }
}

/// A group still open at the end of the document is closed exactly as a
/// thematic break would close it: the same tab strip is spliced in at the
/// same place and the same closing items follow.
pub proof fn lemma_end_closes_like_rule(st: TabsV, s: Seq<EventV>)
    requires
        st.group is Some,
    ensures
        tabs_end(st, s).0 == tabs_step(st, s, EventV::Rule).0,
        tabs_end(st, s).1 == tabs_step(st, s, EventV::Rule).1.events,
        tabs_end(st, s).2 == tabs_step(st, s, EventV::Rule).1.out,
{
}

/// Only the first declared tab of a group is active: among the recorded
/// tabs exactly the first, and the tab being read exactly when none is
/// recorded yet.
pub open spec fn first_tab_active(st: TabsV) -> bool {
    match st.group {
        Some(g) => {
            &&& forall|i: int| 0 <= i < g.tabs.len() ==> (#[trigger] g.tabs[i].is_active <==> i == 0)
            &&& st.tab matches Some(t) ==> (t.is_active <==> g.tabs.len() == 0)
        },
        None => st.tab is None,
    }
}

/// Every event keeps only the first declared tab of a group active, so the
/// tab strip that closes a group has exactly one active label, its first.
pub proof fn lemma_first_tab_stays_active(st: TabsV, s: Seq<EventV>, e: EventV)
    requires
        first_tab_active(st),
    ensures
        first_tab_active(tabs_step(st, s, e).0),
        first_tab_active(tabs_end(st, s).0),
{
    let next = tabs_step(st, s, e).0;
    if let Some(g) = next.group {
        assert forall|i: int| 0 <= i < g.tabs.len() implies (#[trigger] g.tabs[i].is_active <==> i
            == 0) by {
            if let Some(g0) = st.group {
                if i < g0.tabs.len() {
                    assert(g.tabs[i] == g0.tabs[i]);
                }
            }
        }
    }
}

} // verus!
