//! Events as the core sees them: a provider event id scoped to a calendar
//! id, a human summary, and a start instant. Events are transient — only
//! their identity is ever persisted.

use vstd::prelude::*;

use crate::datetime::{start_wf, Start};

verus! {

/// The composite identity of an event: the provider's event id, scoped to
/// a calendar id.
#[derive(Debug)]
pub struct EventKey {
    pub event_id: String,
    pub calendar_id: String,
}

impl View for EventKey {
    type V = (Seq<char>, Seq<char>);

    open spec fn view(&self) -> (Seq<char>, Seq<char>) {
        (self.event_id@, self.calendar_id@)
    }
}

impl Clone for EventKey {
    fn clone(&self) -> (r: Self)
        ensures
            r@ == self@,
    {
        EventKey { event_id: self.event_id.clone(), calendar_id: self.calendar_id.clone() }
    }
}

/// One upcoming event, as handed back by the calendar source.
#[derive(Debug)]
pub struct Event {
    pub key: EventKey,
    pub summary: String,
    pub start: Start,
}

/// The mathematical value of an event: its fields as sequences and plain
/// values.
pub struct EventView {
    pub key: (Seq<char>, Seq<char>),
    pub summary: Seq<char>,
    pub start: Start,
}

impl View for Event {
    type V = EventView;

    open spec fn view(&self) -> EventView {
        EventView { key: self.key@, summary: self.summary@, start: self.start }
    }
}

impl Clone for Event {
    fn clone(&self) -> (r: Self)
        ensures
            r@ == self@,
    {
        let r = Event { key: self.key.clone(), summary: self.summary.clone(), start: self.start };
        assert(r@ == self@);
        r
    }
}

pub open spec fn event_wf(ev: EventView) -> bool {
    start_wf(ev.start)
}

/// The views of a sequence of events.
pub open spec fn views(s: Seq<Event>) -> Seq<EventView> {
    s.map_values(|e: Event| e@)
}

} // verus!
