//! How many of its own events the program deals with at a time.

use vstd::prelude::*;

verus! {

/// Taking events off a queue, up to a limit, so that other work gets its turn.
#[derive(Debug, Clone, Copy, PartialEq, Eq, Structural)]
pub struct EventDrain {
    pub limit: usize,
    pub taken: usize,
    /// The queue was found empty.
    pub dry: bool,
}

impl EventDrain {
    pub open spec fn wf(self) -> bool {
        self.taken <= self.limit
    }

    /// Another event is to be taken, if there is one.
    pub open spec fn goes_on(self) -> bool {
        self.taken < self.limit && !self.dry
    }

    /// The drain after one look at the queue.
    pub open spec fn looked(self, got: bool) -> EventDrain {
        if got {
            EventDrain { taken: (self.taken + 1) as usize, ..self }
        } else {
            EventDrain { dry: true, ..self }
        }
    }

    /// The drain where it stops, on a queue in which a number of events wait.
    pub open spec fn finished(self, waiting: nat) -> EventDrain
        decreases self.limit - self.taken,
    {
        if !self.goes_on() {
            self
        } else if waiting == 0 {
            self.looked(false)
        } else {
            self.looked(true).finished((waiting - 1) as nat)
        }
    }

    /// Begins to take events, `limit` of them at most.
    pub fn drain_internal_events_up_to(limit: usize) -> (drain: Self)
        ensures
            drain.wf(),
            drain == (EventDrain { limit, taken: 0, dry: false }),
    {
        EventDrain { limit, taken: 0, dry: false }
    }

    /// Whether to look for another event.
    pub fn wants_event(&self) -> (r: bool)
        ensures
            r == self.goes_on(),
    {
        self.taken < self.limit && !self.dry
    }

    /// The queue was looked at; whether it gave an event.
    pub fn event_received(&mut self, got: bool)
        requires
            old(self).wf(),
            old(self).goes_on(),
        ensures
            final(self).wf(),
            *final(self) == old(self).looked(got),
    {
        if got {
            self.taken = self.taken + 1;
        } else {
            self.dry = true;
        }
    }

    /// Whether any event was taken.
    pub fn had_event(&self) -> (r: bool)
        ensures
            r == (self.taken > 0),
    {
        self.taken > 0
    }
}

/// A drain takes every event that waits, as far as its limit allows.
pub proof fn drain_takes_what_waits(drain: EventDrain, waiting: nat)
    requires
        drain.wf(),
        !drain.dry,
    ensures
        drain.finished(waiting).wf(),
        drain.finished(waiting).limit == drain.limit,
        drain.finished(waiting).taken == if drain.taken + waiting <= drain.limit {
            drain.taken + waiting
        } else {
            drain.limit as int
        },
    decreases drain.limit - drain.taken,
{
    if drain.goes_on() && waiting > 0 {
        drain_takes_what_waits(drain.looked(true), (waiting - 1) as nat);
    }
}

/// Draining again until a drain takes nothing leaves no event behind.
pub proof fn drain_without_event_is_complete(limit: usize, waiting: nat)
    requires
        limit > 0,
    ensures
        (EventDrain { limit, taken: 0, dry: false }).finished(waiting).taken == 0 <==> waiting == 0,
{
    drain_takes_what_waits(EventDrain { limit, taken: 0, dry: false }, waiting);
}

} // verus!
