//! Task lists: a list holding checkboxes is marked as a checklist.
use vstd::prelude::*;
use crate::buffer::{Opener, has_task_marker_after, opens, task_marker_after};
use crate::event::{Event, EventV, Tag, events_view, html};
use crate::output::{Output, StepV, pass, step_of};

verus! {

/// The opening tag of a checklist.
pub open spec fn checklist_open() -> EventV {
    EventV::Html("<ul class=\"checklist\">"@)
}

/// What the task-list extension does with one event, never claiming it:
/// the start of a list records where its opener goes in the buffer; at the
/// end of a list, when the list's own contents (the events after its opener)
/// hold a task-list marker, its opener becomes a checklist opener.
pub open spec fn tasklist_step(open: Seq<usize>, s: Seq<EventV>, e: EventV) -> (Seq<usize>, StepV) {
    if e is Start && e->Start_0 is List {
        (open.push(s.len() as usize), pass(s))
    } else if e is End && e->End_0 is List && open.len() > 0 {
        let at = open.last() as int;
        if at < s.len() && opens(s[at], Opener::List) && has_task_marker_after(s, at) {
            (open.drop_last(), StepV { events: s.update(at, checklist_open()), out: None, handled: false })
        } else {
            (open.drop_last(), pass(s))
        }
    } else {
        (open, pass(s))
    }
}

/// The task-list extension and the buffer positions of the lists still open.
pub struct Tasklist {
    pub open_lists: Vec<usize>,
}

impl Tasklist {
    /// No list open.
    pub fn new() -> (r: Tasklist)
        ensures
            r.open_lists@ == Seq::<usize>::empty(),
    {
        Tasklist { open_lists: Vec::new() }
    }

    /// Handles one event as `tasklist_step` says.
    pub fn process_event(&mut self, events: &mut Vec<Event>, event: &Event) -> (r: (
        Option<Vec<Output>>,
        bool,
    ))
        ensures
            (final(self).open_lists@, step_of(final(events)@, r)) == tasklist_step(
                old(self).open_lists@,
                events_view(old(events)@),
                event@,
            ),
    {
        let ghost s = events_view(events@);
        match event {
            Event::Start(Tag::List(_)) => {
                self.open_lists.push(events.len());
            },
            Event::End(Tag::List(_)) => {
                match self.open_lists.pop() {
                    Some(at) => {
                        if at < events.len() {
                            let is_list = match &events[at] {
                                Event::Start(Tag::List(_)) => true,
                                _ => false,
                            };
                            assert(is_list == opens(s[at as int], Opener::List));
                            if is_list && task_marker_after(events, at) {
                                events.set(at, html("<ul class=\"checklist\">"));
                                assert(events_view(events@) =~= s.update(at as int, checklist_open()));
                            }
                        }
                    },
                    None => {},
                }
            },
            _ => {},
        }
        (None, false)
    }
}

} // verus!
