//! The two-generation event queue carrying externally produced intents.

use vstd::prelude::*;

verus! {

/// An externally produced intent, consumed by the drafting system.
#[derive(Debug, Copy, Clone)]
pub enum Event {
    /// Draft the die at this position of the active combatant's `available`
    /// dice, as the list stood when the event is consumed.
    DraftDie(usize),
}

/// The global event queue.  Producers append to `new_events`; consumers read
/// `events`.  Once per driver iteration the queue rotates: `events` is
/// replaced by `new_events`, which is then cleared.
#[derive(Debug)]
pub struct EventQueue {
    pub events: Vec<Event>,
    pub new_events: Vec<Event>,
}

#[verifier::ext_equal]
pub struct EventQueueV {
    pub events: Seq<Event>,
    pub new_events: Seq<Event>,
}

impl View for EventQueue {
    type V = EventQueueV;

    open spec fn view(&self) -> EventQueueV {
        EventQueueV { events: self.events@, new_events: self.new_events@ }
    }
}

/// What one rotation does to the queue.
pub open spec fn queue_rotate(q: EventQueueV) -> EventQueueV {
    EventQueueV { events: q.new_events, new_events: Seq::empty() }
}

impl EventQueue {
    pub fn new() -> (r: EventQueue)
        ensures
            r@.events == Seq::<Event>::empty(),
            r@.new_events == Seq::<Event>::empty(),
    {
        EventQueue { events: Vec::new(), new_events: Vec::new() }
    }

    /// Moves the next generation into the current one and starts an empty
    /// next generation.
    pub fn rotate(&mut self)
        ensures
            final (self)@ == queue_rotate(old(self)@),
    {
        let mut moved: Vec<Event> = Vec::new();
        core::mem::swap(&mut moved, &mut self.new_events);
        self.events = moved;
        proof {
            assert(self@ =~= queue_rotate(old(self)@));
        }
    }
}

} // verus!
