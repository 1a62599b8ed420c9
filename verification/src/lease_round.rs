//! What holds of a whole round of answering wait lease requests.

use crate::app::{App, Effect};
use crate::leases::{response, Outcome, World};
use crate::lease_sync::WaitLeaseSync;
use crate::protocol::{RequestView, ResponseView, WaitLeaseRequest, WaitLeaseResponse};
use crate::refusal::clock_view;
use crate::terminal::TerminalView;
use vstd::prelude::*;

verus! {

pub type Terminals = Map<Seq<char>, TerminalView>;

/// What the outside world does while one request is dealt with: what the clock shows
/// when it is carried out and when it is closed, and whether its answer is delivered.
/// The rest of the program may change terminals when it does the work that is left to
/// it after each of the two.
pub struct Turn {
    pub answer_clock: Result<u64, Seq<char>>,
    pub worked_after_answer: spec_fn(Terminals) -> Terminals,
    pub delivered: bool,
    pub settle_clock: Result<u64, Seq<char>>,
    pub worked_after_settling: spec_fn(Terminals) -> Terminals,
}

/// How far a round has come: the terminals, the answers given, the work left to do, and
/// whether anything that readers see has changed.
#[verifier::ext_equal]
pub struct Round {
    pub terminals: Terminals,
    pub answers: Seq<ResponseView>,
    pub effects: Seq<Effect>,
    pub changed: bool,
}

/// The requests as mathematical values.
pub open spec fn request_views(requests: Seq<WaitLeaseRequest>) -> Seq<RequestView> {
    requests.map_values(|request: WaitLeaseRequest| request@)
}

impl World {
    /// What one request leads to, with what follows where its answer is lost.
    pub open spec fn taken_turn(self, request: RequestView, turn: Turn) -> Outcome {
        let outcome = self.apply(request, turn.answer_clock);
        let held = self.with_terminals((turn.worked_after_answer)(outcome.terminals));
        let lost = outcome.changed && !turn.delivered;
        Outcome {
            terminals: (turn.worked_after_settling)(
                if lost {
                    held.rolled_back(request, turn.settle_clock)
                } else {
                    held.terminals
                },
            ),
            effects: outcome.effects + if lost {
                held.rollback_effects(request, turn.settle_clock)
            } else {
                Seq::empty()
            },
            ..outcome
        }
    }

    /// The round after as many of the requests as there are turns.
    pub open spec fn round(self, requests: Seq<RequestView>, turns: Seq<Turn>) -> Round
        decreases turns.len(),
    {
        if turns.len() == 0 {
            Round {
                terminals: self.terminals,
                answers: Seq::empty(),
                effects: Seq::empty(),
                changed: false,
            }
        } else {
            let before = self.round(requests, turns.drop_last());
            let request = requests[turns.len() - 1];
            let outcome = self.with_terminals(before.terminals).taken_turn(request, turns.last());
            Round {
                terminals: outcome.terminals,
                answers: before.answers.push(response(request.request_id, outcome.result)),
                effects: before.effects + outcome.effects,
                changed: before.changed || outcome.changed,
            }
        }
    }

    /// The world in which the request in place `i` is carried out.
    pub open spec fn found_by(
        self,
        requests: Seq<RequestView>,
        turns: Seq<Turn>,
        i: int,
    ) -> World {
        self.with_terminals(self.round(requests, turns.take(i)).terminals)
    }

    /// What the request in place `i` leads to when it is carried out.
    pub open spec fn outcome_of(
        self,
        requests: Seq<RequestView>,
        turns: Seq<Turn>,
        i: int,
    ) -> Outcome {
        self.found_by(requests, turns, i).apply(requests[i], turns[i].answer_clock)
    }
}

/// In a round every request is carried out and answered once, in its turn, on what the
/// ones before it have left. The round has changed something exactly if one of the
/// requests has.
pub proof fn round_answers_every_request(
    world: World,
    requests: Seq<RequestView>,
    turns: Seq<Turn>,
)
    requires
        turns.len() <= requests.len(),
    ensures
        world.round(requests, turns).answers.len() == turns.len(),
        forall|i: int|
            0 <= i < turns.len() ==> #[trigger] world.round(requests, turns).answers[i] == response(
                requests[i].request_id,
                world.outcome_of(requests, turns, i).result,
            ),
        world.round(requests, turns).changed <==> exists|i: int|
            0 <= i < turns.len() && (#[trigger] world.outcome_of(requests, turns, i)).changed,
    decreases turns.len(),
{
    if turns.len() > 0 {
        let front = turns.drop_last();
        let last = turns.len() - 1;
        let round = world.round(requests, turns);
        let before = world.round(requests, front);
        round_answers_every_request(world, requests, front);
        assert forall|i: int| 0 <= i < front.len() implies #[trigger] world.outcome_of(
            requests,
            turns,
            i,
        ) == world.outcome_of(requests, front, i) by {
            assert(front.take(i) =~= turns.take(i));
        }
        assert(turns.take(last) =~= front);
        assert(round.changed == (before.changed || world.outcome_of(requests, turns, last).changed));
        assert forall|i: int| 0 <= i < turns.len() implies #[trigger] round.answers[i] == response(
            requests[i].request_id,
            world.outcome_of(requests, turns, i).result,
        ) by {
            if i < last {
                assert(round.answers[i] == before.answers[i]);
                assert(world.outcome_of(requests, turns, i) == world.outcome_of(
                    requests,
                    front,
                    i,
                ));
            }
        }
        if before.changed {
            let i = choose|i: int|
                0 <= i < front.len() && (#[trigger] world.outcome_of(requests, front, i)).changed;
            assert(world.outcome_of(requests, turns, i).changed);
        }
        if exists|i: int|
            0 <= i < turns.len() && (#[trigger] world.outcome_of(requests, turns, i)).changed {
            let i = choose|i: int|
                0 <= i < turns.len() && (#[trigger] world.outcome_of(requests, turns, i)).changed;
            if i < last {
                assert(world.outcome_of(requests, front, i).changed);
            }
        }
    }
}

/// An answer that cannot be delivered stops no later request: whatever becomes of the
/// answers, there are as many of them, each to its own request.
pub proof fn lost_answers_stop_no_request(
    world: World,
    requests: Seq<RequestView>,
    turns: Seq<Turn>,
    others: Seq<Turn>,
)
    requires
        turns.len() == requests.len(),
        others.len() == requests.len(),
    ensures
        world.round(requests, turns).answers.len() == requests.len(),
        world.round(requests, others).answers.len() == requests.len(),
        forall|i: int|
            0 <= i < requests.len() ==> {
                &&& (#[trigger] world.round(requests, turns).answers[i]).request_id
                    == requests[i].request_id
                &&& world.round(requests, others).answers[i].request_id == requests[i].request_id
            },
{
    round_answers_every_request(world, requests, turns);
    round_answers_every_request(world, requests, others);
    assert forall|i: int| 0 <= i < requests.len() implies {
        &&& (#[trigger] world.round(requests, turns).answers[i]).request_id
            == requests[i].request_id
        &&& world.round(requests, others).answers[i].request_id == requests[i].request_id
    } by {
        assert(world.round(requests, others).answers[i] == response(
            requests[i].request_id,
            world.outcome_of(requests, others, i).result,
        ));
    }
}

impl WaitLeaseSync {
    /// The round that began in `world` has come as far as `turns`, and `app` is the
    /// program then.
    pub open spec fn has_taken(self, world: World, turns: Seq<Turn>, app: App) -> bool {
        let round = world.round(request_views(self.requests@), turns);
        &&& self.wf()
        &&& self.answered is None
        &&& self.done == turns.len()
        &&& self.changed == round.changed
        &&& app.world() == world.with_terminals(round.terminals)
    }
}

/// A round has taken no turn when it begins.
pub proof fn round_begins(sync: WaitLeaseSync, app: App)
    requires
        sync == (WaitLeaseSync {
            requests: sync.requests,
            done: 0,
            answered: None,
            changed: false,
        }),
    ensures
        sync.has_taken(app.world(), Seq::empty(), app),
{
}

/// Answering the next request and closing it takes the round one turn further, whether
/// the answer is delivered or not. `held` and `after` are the program once the work that
/// the two steps leave to do is done.
pub proof fn round_goes_on(
    world: World,
    turns: Seq<Turn>,
    turn: Turn,
    app: App,
    sync: WaitLeaseSync,
    answer_clock: Result<u64, String>,
    answered: App,
    answered_sync: WaitLeaseSync,
    answer: WaitLeaseResponse,
    held: App,
    settle_clock: Result<u64, String>,
    settled: App,
    settled_sync: WaitLeaseSync,
    after: App,
)
    requires
        sync.has_taken(world, turns, app),
        sync.done < sync.requests@.len(),
        turn.answer_clock == clock_view(answer_clock),
        turn.settle_clock == clock_view(settle_clock),
        App::answers_next(app, sync, answer_clock, answered, answered_sync, answer),
        held.world() == answered.world().with_terminals(
            (turn.worked_after_answer)(answered.terminals@),
        ),
        App::settles(held, answered_sync, turn.delivered, settle_clock, settled, settled_sync),
        after.world() == settled.world().with_terminals(
            (turn.worked_after_settling)(settled.terminals@),
        ),
    ensures
        settled_sync.has_taken(world, turns.push(turn), after),
        settled_sync.requests == sync.requests,
        answer@ == world.round(request_views(sync.requests@), turns.push(turn)).answers.last(),
        ({
            let request = sync.requests@[turns.len() as int]@;
            let outcome = app.world().taken_turn(request, turn);
            &&& answered.effects@ == app.effects@ + app.world().apply(
                request,
                turn.answer_clock,
            ).effects
            &&& outcome.effects == app.world().apply(request, turn.answer_clock).effects
                + settled.effects@.skip(held.effects@.len() as int)
        }),
{
    let requests = request_views(sync.requests@);
    let request = sync.requests@[turns.len() as int]@;
    assert(requests[turns.len() as int] == request);
    assert(turns.push(turn).drop_last() =~= turns);
    assert(app.world() == world.with_terminals(world.round(requests, turns).terminals));
    let outcome = app.world().apply(request, turn.answer_clock);
    let lost = outcome.changed && !turn.delivered;
    let rest = if lost {
        held.world().rollback_effects(request, turn.settle_clock)
    } else {
        Seq::empty()
    };
    assert(settled.effects@.skip(held.effects@.len() as int) =~= rest);
    assert(app.world().taken_turn(request, turn).effects =~= outcome.effects + rest);
    assert(sync.done < sync.requests.len());
}

/// When no request is left, each has had its turn, and the round says that something has
/// changed exactly if one of the requests changed something.
pub proof fn round_ends(sync: WaitLeaseSync, world: World, turns: Seq<Turn>, app: App)
    requires
        sync.has_taken(world, turns, app),
        sync.done == sync.requests@.len(),
    ensures
        turns.len() == sync.requests@.len(),
        sync.changed <==> exists|i: int|
            0 <= i < turns.len() && (#[trigger] world.outcome_of(
                request_views(sync.requests@),
                turns,
                i,
            )).changed,
{
    round_answers_every_request(world, request_views(sync.requests@), turns);
}

/// What a request changed stands where its answer was delivered. Only where the answer of a
/// request that changed something was lost is it taken back, on what the terminals are by
/// then. The answer is the one that the request was given.
pub proof fn only_lost_answers_are_taken_back(world: World, request: RequestView, turn: Turn)
    ensures
        ({
            let outcome = world.apply(request, turn.answer_clock);
            let taken = world.taken_turn(request, turn);
            let held = World {
                layout: world.layout,
                terminals: (turn.worked_after_answer)(outcome.terminals),
            };
            &&& taken.result == outcome.result
            &&& taken.changed == outcome.changed
            &&& turn.delivered || !outcome.changed ==> {
                &&& taken.terminals == (turn.worked_after_settling)(held.terminals)
                &&& taken.effects == outcome.effects
            }
            &&& !turn.delivered && outcome.changed ==> {
                &&& taken.terminals == (turn.worked_after_settling)(
                    held.rolled_back(request, turn.settle_clock),
                )
                &&& taken.effects == outcome.effects + held.rollback_effects(
                    request,
                    turn.settle_clock,
                )
            }
        }),
{
    let outcome = world.apply(request, turn.answer_clock);
    assert(outcome.effects + Seq::<Effect>::empty() =~= outcome.effects);
}

/// Each turn of a round starts from what the turns before it have left, and the round ends
/// with what its last turn leaves.
pub proof fn turns_follow_each_other(
    world: World,
    requests: Seq<RequestView>,
    turns: Seq<Turn>,
    turn: Turn,
)
    ensures
        world.round(requests, Seq::empty()) == (Round {
            terminals: world.terminals,
            answers: Seq::empty(),
            effects: Seq::empty(),
            changed: false,
        }),
        ({
            let before = world.round(requests, turns);
            let after = world.round(requests, turns.push(turn));
            let request = requests[turns.len() as int];
            let taken = World { layout: world.layout, terminals: before.terminals }.taken_turn(
                request,
                turn,
            );
            &&& after.terminals == taken.terminals
            &&& after.effects == before.effects + taken.effects
            &&& after.answers == before.answers.push(
                ResponseView { version: 1, request_id: request.request_id, result: taken.result },
            )
            &&& after.changed <==> before.changed || taken.changed
        }),
        forall|i: int|
            0 <= i <= turns.len() ==> #[trigger] world.found_by(requests, turns, i) == (World {
                layout: world.layout,
                terminals: world.round(requests, turns.take(i)).terminals,
            }),
{
    assert(turns.push(turn).drop_last() =~= turns);
}

/// The requests of a round are modelled as they are, and a round is in order as long as no
/// more requests are done than there are and the one in hand is not done.
pub proof fn requests_are_taken_as_they_are(sync: WaitLeaseSync, i: int)
    ensures
        request_views(sync.requests@).len() == sync.requests@.len(),
        0 <= i < sync.requests@.len() ==> request_views(sync.requests@)[i] == sync.requests@[i]@,
        sync.wf() <==> sync.done <= sync.requests@.len() && (sync.answered is None || sync.done
            < sync.requests@.len()),
{
}

} // verus!
