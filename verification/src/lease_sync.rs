//! One round of answering the wait lease requests that have come in.
//!
//! A round alternates between a decision and the outside world: each request is
//! carried out and answered, the answer is delivered, and a lease whose answer could
//! not be delivered is taken back.

use crate::app::App;
use crate::leases::response;
use crate::protocol::{WaitLeaseRequest, WaitLeaseResponse};
use crate::refusal::clock_view;
use vstd::prelude::*;

verus! {

/// How far a round has come.
#[derive(Debug, Clone, PartialEq, Eq)]
pub struct WaitLeaseSync {
    pub requests: Vec<WaitLeaseRequest>,
    /// How many requests are done with.
    pub done: usize,
    /// Whether the next request has been answered, and whether it changed anything.
    pub answered: Option<bool>,
    /// Whether the round has changed anything that readers see.
    pub changed: bool,
}

impl WaitLeaseSync {
    /// There are no more requests done than there are, and one in hand is not yet done.
    pub open spec fn wf(self) -> bool {
        &&& self.done <= self.requests@.len()
        &&& self.answered is Some ==> self.done < self.requests@.len()
    }

    pub fn new(requests: Vec<WaitLeaseRequest>) -> (sync: Self)
        ensures
            sync.wf(),
            sync == (WaitLeaseSync { requests, done: 0, answered: None, changed: false }),
    {
        Self { requests, done: 0, answered: None, changed: false }
    }
}

impl App {
    /// The next request is carried out on the program as it was `before`, and `answer` is
    /// what it is answered.
    pub open spec fn answers_next(
        before: App,
        sync_before: WaitLeaseSync,
        clock: Result<u64, String>,
        after: App,
        sync_after: WaitLeaseSync,
        answer: WaitLeaseResponse,
    ) -> bool {
        let request = sync_before.requests@[sync_before.done as int]@;
        let outcome = before.world().apply(request, clock_view(clock));
        &&& App::carried_out(before, after, outcome)
        &&& answer@ == response(request.request_id, outcome.result)
        &&& sync_after == (WaitLeaseSync {
            answered: Some(outcome.changed),
            changed: sync_before.changed || outcome.changed,
            ..sync_before
        })
    }

    /// The request in hand is closed. What it changed is taken back where its answer
    /// could not be delivered.
    pub open spec fn settles(
        before: App,
        sync_before: WaitLeaseSync,
        delivered: bool,
        clock: Result<u64, String>,
        after: App,
        sync_after: WaitLeaseSync,
    ) -> bool {
        let request = sync_before.requests@[sync_before.done as int]@;
        let world = before.world();
        let takes_back = !delivered && sync_before.answered->0;
        &&& App::only_leases_differ(before, after)
        &&& if takes_back {
            &&& after.terminals@ == world.rolled_back(request, clock_view(clock))
            &&& after.effects@ == before.effects@ + world.rollback_effects(
                request,
                clock_view(clock),
            )
        } else {
            after == before
        }
        &&& sync_after == (WaitLeaseSync {
            done: (sync_before.done + 1) as usize,
            answered: None,
            changed: sync_before.changed || (takes_back && world.rolls_back(
                request,
                clock_view(clock),
            )),
            ..sync_before
        })
    }

    /// Carries out the next request and gives its answer, or nothing when the round is
    /// over.
    pub fn answer_next_wait_lease_request(
        &mut self,
        sync: &mut WaitLeaseSync,
        clock: &Result<u64, String>,
    ) -> (r: Option<WaitLeaseResponse>)
        requires
            old(self).wf(),
            old(sync).wf(),
            old(sync).answered is None,
        ensures
            final(self).wf(),
            final(sync).wf(),
            r is None <==> old(sync).done == old(sync).requests@.len(),
            r is None ==> *final(self) == *old(self) && *final(sync) == *old(sync),
            r matches Some(answer) ==> App::answers_next(
                *old(self),
                *old(sync),
                *clock,
                *final(self),
                *final(sync),
                answer,
            ),
    {
        if sync.done == sync.requests.len() {
            return None;
        }
        let (answer, request_changed) = self.apply_wait_lease_request(
            &sync.requests[sync.done],
            clock,
        );
        sync.answered = Some(request_changed);
        sync.changed = sync.changed || request_changed;
        Some(answer)
    }

    /// Closes the request in hand. If its answer could not be delivered, what it
    /// changed is taken back.
    pub fn settle_wait_lease_request(
        &mut self,
        sync: &mut WaitLeaseSync,
        delivered: bool,
        clock: &Result<u64, String>,
    )
        requires
            old(self).wf(),
            old(sync).wf(),
            old(sync).answered is Some,
        ensures
            final(self).wf(),
            final(sync).wf(),
            App::settles(
                *old(self),
                *old(sync),
                delivered,
                *clock,
                *final(self),
                *final(sync),
            ),
    {
        assert(sync.done < sync.requests.len());
        let request_changed = match sync.answered {
            Some(request_changed) => request_changed,
            None => false,
        };
        if !delivered && request_changed {
            let rolled_back = self.rollback_unacknowledged_wait_lease_acquire(
                &sync.requests[sync.done],
                clock,
            );
            sync.changed = sync.changed || rolled_back;
        }
        sync.answered = None;
        sync.done = sync.done + 1;
    }
}

} // verus!
