//! Searches over the buffer of events.
use vstd::prelude::*;
use crate::event::{Event, EventV, TagV, events_view};

verus! {

/// The kinds of opening events that extensions search backwards for.
#[derive(Debug, Clone, Copy, PartialEq, Eq, Structural)]
pub enum Opener {
    BlockQuote,
    List,
    Heading,
}

pub open spec fn opens(e: EventV, o: Opener) -> bool {
    match e {
        EventV::Start(t) => match o {
            Opener::BlockQuote => t is BlockQuote,
            Opener::List => t is List,
            Opener::Heading => t is Heading,
        },
        _ => false,
    }
}

/// Index of the last event of `s` that opens `o`, or -1.
pub open spec fn last_opener(s: Seq<EventV>, o: Opener) -> int
    decreases s.len(),
{
    if s.len() == 0 {
        -1
    } else if opens(s.last(), o) {
        s.len() - 1
    } else {
        last_opener(s.drop_last(), o)
    }
}

pub proof fn lemma_last_opener_bounds(s: Seq<EventV>, o: Opener)
    ensures
        -1 <= last_opener(s, o) < s.len(),
        last_opener(s, o) >= 0 ==> opens(s[last_opener(s, o)], o),
        forall|k: int| last_opener(s, o) < k < s.len() ==> !opens(#[trigger] s[k], o),
    decreases s.len(),
{
    if s.len() > 0 && !opens(s.last(), o) {
        lemma_last_opener_bounds(s.drop_last(), o);
        assert forall|k: int| last_opener(s, o) < k < s.len() implies !opens(#[trigger] s[k], o) by {
            if k < s.len() - 1 {
                assert(s[k] == s.drop_last()[k]);
            }
        }
    }
}

/// Finds the last event that opens `o`.
pub fn find_last_opener(events: &Vec<Event>, o: Opener) -> (r: Option<usize>)
    ensures
        match r {
            Some(i) => i == last_opener(events_view(events@), o),
            None => last_opener(events_view(events@), o) == -1,
        },
{
    let ghost s = events_view(events@);
    let mut n = events.len();
    assert(s.subrange(0, n as int) =~= s);
    while n > 0
        invariant
            s == events_view(events@),
            n <= s.len(),
            last_opener(s, o) == last_opener(s.subrange(0, n as int), o),
        decreases n,
    {
        let ghost t = s.subrange(0, n as int);
        assert(t.drop_last() =~= s.subrange(0, n - 1));
        assert(t.last() == events@[n - 1]@);
        let found = match &events[n - 1] {
            Event::Start(t) => match (t, o) {
                (crate::event::Tag::BlockQuote, Opener::BlockQuote) => true,
                (crate::event::Tag::List(_), Opener::List) => true,
                (crate::event::Tag::Heading(_), Opener::Heading) => true,
                _ => false,
            },
            _ => false,
        };
        if found {
            return Some(n - 1);
        }
        n = n - 1;
    }
    None
}

/// Whether an event of the buffer after position `at` is a task-list marker.
pub open spec fn has_task_marker_after(s: Seq<EventV>, at: int) -> bool {
    exists|k: int| at < k < s.len() && #[trigger] s[k] is TaskListMarker
}

pub fn task_marker_after(events: &Vec<Event>, at: usize) -> (r: bool)
    requires
        at < events@.len(),
    ensures
        r == has_task_marker_after(events_view(events@), at as int),
{
    let ghost s = events_view(events@);
    let n = events.len();
    assert(at < n);
    let mut i: usize = at + 1;
    while i < events.len()
        invariant
            s == events_view(events@),
            at < i <= s.len(),
            forall|k: int| at < k < i ==> !(#[trigger] s[k] is TaskListMarker),
        decreases s.len() - i,
    {
        if let Event::TaskListMarker(_) = &events[i] {
            assert(s[i as int] is TaskListMarker);
            return true;
        }
        i = i + 1;
    }
    false
}

/// Whether `e` closes a paragraph.
pub open spec fn ends_paragraph(e: EventV) -> bool {
    e == EventV::End(TagV::Paragraph)
}

/// Index of the first paragraph end in `s` at or after `from`, or the length of `s`.
pub open spec fn first_paragraph_end(s: Seq<EventV>, from: int) -> int
    decreases s.len() - from,
{
    if from >= s.len() {
        s.len() as int
    } else if ends_paragraph(s[from]) {
        from
    } else {
        first_paragraph_end(s, from + 1)
    }
}

pub proof fn lemma_first_paragraph_end(s: Seq<EventV>, from: int)
    requires
        0 <= from <= s.len(),
    ensures
        from <= first_paragraph_end(s, from) <= s.len(),
        first_paragraph_end(s, from) < s.len() ==> ends_paragraph(
            s[first_paragraph_end(s, from)],
        ),
        forall|k: int| from <= k < first_paragraph_end(s, from) ==> !ends_paragraph(#[trigger] s[k]),
    decreases s.len() - from,
{
    if from < s.len() && !ends_paragraph(s[from]) {
        lemma_first_paragraph_end(s, from + 1);
    }
}

/// The text that the `Text` and `Code` events of `s` carry, in order.
pub open spec fn collect_text(s: Seq<EventV>) -> Seq<char>
    decreases s.len(),
{
    if s.len() == 0 {
        seq![]
    } else {
        collect_text(s.drop_last()) + match s.last() {
            EventV::Text(t) => t,
            EventV::Code(t) => t,
            _ => seq![],
        }
    }
}

} // verus!
