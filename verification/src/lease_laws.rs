//! What holds of the wait lease protocol as a whole.

use crate::layout::{placed_panes, PlacedPaneView};
use crate::leases::{
    drop_effects, leases_dropped, pane_updated, recompute, revoked_until, shows_expired,
    AcquireVerdict, ReleaseVerdict, World,
};
use crate::protocol::{AcquireView, OperationView, ReleaseView, RequestView, ResultView};
use crate::revocations::{
    blocks_only_run_out, recorded_release_is_repeated, recorded_token_is_blocked,
    recording_keeps_blocks, recording_keeps_other_answers,
};
use crate::sequences::filter_members;
use crate::terminal::TerminalView;
use crate::text::{trimmed, valid_job_id, valid_token};
use crate::wait_lease::MAX_WAIT_LEASE_TTL_MS;
use vstd::prelude::*;

verus! {

impl World {
    /// The world after its terminals have changed.
    pub open spec fn with_terminals(self, terminals: Map<Seq<char>, TerminalView>) -> World {
        World { terminals, ..self }
    }

    /// Nothing can be acquired with `token` on the terminal `id` at `at_ms`.
    pub open spec fn blocks(self, id: Seq<char>, token: Seq<char>, at_ms: u64) -> bool {
        self.terminals.contains_key(id) && self.terminals[id].revocations.blocks(token, at_ms)
    }
}

/// A request that is refused changes nothing and leaves nothing to do.
pub proof fn refusal_changes_nothing(
    world: World,
    request: RequestView,
    clock: Result<u64, Seq<char>>,
)
    ensures
        world.apply(request, clock).result is Error ==> {
            &&& world.apply(request, clock).terminals == world.terminals
            &&& !world.apply(request, clock).changed
            &&& world.apply(request, clock).effects.len() == 0
        },
{
}

/// A request touches the terminal that it names and no other, and of that one nothing
/// but the lease, the revocations and the revision: not the process that runs in it
/// and not the state of its agent.
pub proof fn lease_is_orthogonal(
    world: World,
    request: RequestView,
    clock: Result<u64, Seq<char>>,
    id: Seq<char>,
)
    requires
        world.terminals.contains_key(id),
    ensures
        world.apply(request, clock).terminals.contains_key(id),
        world.apply(request, clock).terminals[id].runtime_generation
            == world.terminals[id].runtime_generation,
        world.apply(request, clock).terminals[id].state == world.terminals[id].state,
        match request.operation {
            OperationView::Acquire(a) => a.terminal_id != id,
            OperationView::Release(r) => r.terminal_id != id,
        } ==> world.apply(request, clock).terminals[id] == world.terminals[id],
{
}

/// Readers are told of a change exactly when there is one: the revision of the terminal
/// moves on by one, and the pane is reported.
pub proof fn change_is_reported(world: World, request: RequestView, clock: Result<u64, Seq<char>>)
    ensures
        ({
            let outcome = world.apply(request, clock);
            let id = match request.operation {
                OperationView::Acquire(a) => a.terminal_id,
                OperationView::Release(r) => r.terminal_id,
            };
            &&& outcome.changed ==> {
                &&& world.terminals.contains_key(id)
                &&& outcome.terminals[id].revision == world.terminals[id].revision.wrapping_add(1)
                &&& outcome.terminals[id].wait_lease != world.terminals[id].wait_lease
                &&& outcome.effects.last() is PaneUpdated
            }
            &&& !outcome.changed ==> {
                &&& outcome.effects.len() == 0
                &&& world.terminals.contains_key(id) ==> {
                    &&& outcome.terminals[id].revision == world.terminals[id].revision
                    &&& outcome.terminals[id].wait_lease == world.terminals[id].wait_lease
                }
            }
        }),
{
}

/// A lease that is handed out runs from the moment of the request for the time that was
/// asked for: it is running when it is handed out, and never for longer than a day more.
pub proof fn lease_lifetime(world: World, a: AcquireView, clock: Result<u64, Seq<char>>)
    ensures
        world.acquire_verdict(a, clock) matches AcquireVerdict::Grant { now_ms, expires_at_ms } ==> {
            &&& clock == Ok::<u64, Seq<char>>(now_ms)
            &&& expires_at_ms == a.requested_at_ms + a.ttl_ms
            &&& now_ms < expires_at_ms <= now_ms + MAX_WAIT_LEASE_TTL_MS
        },
{
}

/// While a lease is running nobody else gets one: an acquire request leaves the
/// terminals as they are.
pub proof fn running_lease_is_exclusive(world: World, a: AcquireView, now_ms: u64)
    requires
        world.terminals.contains_key(a.terminal_id),
        world.terminals[a.terminal_id].active_lease(now_ms),
    ensures
        world.acquire(a, Ok(now_ms)).terminals == world.terminals,
        world.acquire(a, Ok(now_ms)).result is Acquired
            ==> world.terminals[a.terminal_id].wait_lease->0.owned_by(trimmed(a.job_id), a.token),
{
}

/// A lease is taken back only by a request that names its job and its token.
pub proof fn only_the_owner_releases(
    world: World,
    r: ReleaseView,
    clock: Result<u64, Seq<char>>,
    id: Seq<char>,
)
    requires
        world.terminals.contains_key(id),
        world.terminals[id].wait_lease is Some,
        world.release(r, clock).terminals[id].wait_lease != world.terminals[id].wait_lease,
    ensures
        r.terminal_id == id,
        world.terminals[id].wait_lease->0.owned_by(trimmed(r.job_id), r.token),
{
}

/// Asking again for a lease that one holds is answered with the time that is left, and
/// changes nothing.
pub proof fn acquire_is_idempotent(world: World, a: AcquireView, now_ms: u64, at_ms: u64)
    requires
        world.acquire_verdict(a, Ok(now_ms)) is Grant,
        now_ms <= at_ms < a.requested_at_ms + a.ttl_ms,
    ensures
        ({
            let next = world.with_terminals(world.acquire(a, Ok(now_ms)).terminals);
            next.acquire(a, Ok(at_ms)) == next.unchanged(
                ResultView::Acquired {
                    job_id: trimmed(a.job_id),
                    remaining_ms: (a.requested_at_ms + a.ttl_ms - at_ms) as u64,
                    token: a.token,
                },
            )
        }),
{
    blocks_only_run_out(world.terminals[a.terminal_id].revocations, a.token, now_ms, at_ms);
}

/// The owner of a lease can always give it back, and is told whether it was still
/// running. White space round the name of the job makes no difference. What is left of
/// the lease is the revocation of its token.
pub proof fn release_undoes_acquire(
    world: World,
    a: AcquireView,
    r: ReleaseView,
    now_ms: u64,
    at_ms: u64,
)
    requires
        world.acquire_verdict(a, Ok(now_ms)) is Grant,
        now_ms <= at_ms,
        r == (ReleaseView {
            pane_id: a.pane_id,
            terminal_id: a.terminal_id,
            terminal_generation: a.terminal_generation,
            job_id: r.job_id,
            token: a.token,
        }),
        trimmed(r.job_id) == trimmed(a.job_id),
    ensures
        ({
            let next = world.with_terminals(world.acquire(a, Ok(now_ms)).terminals);
            let outcome = next.release(r, Ok(at_ms));
            let released = at_ms < a.requested_at_ms + a.ttl_ms;
            let before = world.terminals[a.terminal_id];
            &&& outcome.changed
            &&& outcome.result == (ResultView::Released { released })
            &&& outcome.terminals == world.terminals.insert(
                a.terminal_id,
                before.with_lease(None).with_lease(None).revoking(a.token, released, at_ms),
            )
        }),
{
    let before = world.terminals[a.terminal_id];
    blocks_only_run_out(before.revocations, a.token, now_ms, at_ms);
    let next = world.with_terminals(world.acquire(a, Ok(now_ms)).terminals);
    assert(next.terminals[a.terminal_id].revocations.prior_release(a.token, at_ms) is None);
    let released = at_ms < a.requested_at_ms + a.ttl_ms;
    assert(next.release(r, Ok(at_ms)).terminals =~= world.terminals.insert(
        a.terminal_id,
        before.with_lease(None).with_lease(None).revoking(a.token, released, at_ms),
    ));
}

/// With a token that is blocked nothing is acquired.
pub proof fn blocked_token_is_refused(world: World, a: AcquireView, at_ms: u64)
    requires
        world.blocks(a.terminal_id, a.token, at_ms),
    ensures
        world.acquire_verdict(a, Ok(at_ms)) is Refuse,
        world.acquire(a, Ok(at_ms)).result is Error,
{
}

/// A token that was given up cannot be used again: not where its lease was taken back,
/// and not where it was released before it was ever used.
pub proof fn released_token_is_not_acquired_again(
    world: World,
    r: ReleaseView,
    now_ms: u64,
    a: AcquireView,
    at_ms: u64,
)
    requires
        world.release_verdict(r, Ok(now_ms)) is Clear || world.release_verdict(r, Ok(now_ms)) is Preempt,
        a.terminal_id == r.terminal_id,
        a.token == r.token,
        now_ms <= at_ms < revoked_until(now_ms),
    ensures
        world.with_terminals(world.release(r, Ok(now_ms)).terminals).blocks(
            r.terminal_id,
            r.token,
            at_ms,
        ),
        world.with_terminals(world.release(r, Ok(now_ms)).terminals).acquire(
            a,
            Ok(at_ms),
        ).result is Error,
{
    let released = match world.release_verdict(r, Ok(now_ms)) {
        ReleaseVerdict::Clear { released, .. } => released,
        _ => false,
    };
    recorded_token_is_blocked(
        world.terminals[r.terminal_id].revocations,
        r.token,
        revoked_until(now_ms),
        released,
        now_ms,
        at_ms,
    );
}

/// What is blocked stays blocked through every request that is carried out in between.
pub proof fn requests_lift_no_block(
    world: World,
    request: RequestView,
    clock: Result<u64, Seq<char>>,
    id: Seq<char>,
    token: Seq<char>,
    at_ms: u64,
)
    requires
        world.blocks(id, token, at_ms),
        clock matches Ok(now_ms) ==> now_ms <= at_ms,
    ensures
        world.with_terminals(world.apply(request, clock).terminals).blocks(id, token, at_ms),
{
    if request.operation is Release && clock is Ok {
        let r = request.operation->Release_0;
        let now_ms = clock->Ok_0;
        let released = match world.release_verdict(r, clock) {
            ReleaseVerdict::Clear { released, .. } => released,
            _ => false,
        };
        recording_keeps_blocks(
            world.terminals[id].revocations,
            r.token,
            revoked_until(now_ms),
            released,
            now_ms,
            token,
            at_ms,
        );
    }
}

/// Taking back an acquire request whose answer was lost leaves no lease, and a token
/// with which nothing can be acquired.
pub proof fn rollback_revokes(
    world: World,
    request: RequestView,
    now_ms: u64,
    at_ms: u64,
)
    requires
        world.rolls_back(request, Ok(now_ms)),
        now_ms <= at_ms < revoked_until(now_ms),
    ensures
        ({
            let a = request.operation->Acquire_0;
            let next = world.with_terminals(world.rolled_back(request, Ok(now_ms)));
            &&& next.terminals[a.terminal_id].wait_lease is None
            &&& next.blocks(a.terminal_id, a.token, at_ms)
            &&& next.acquire(a, Ok(at_ms)).result is Error
        }),
{
    let a = request.operation->Acquire_0;
    recorded_token_is_blocked(
        world.terminals[a.terminal_id].revocations,
        a.token,
        revoked_until(now_ms),
        false,
        now_ms,
        at_ms,
    );
}

/// What is blocked stays blocked through a rollback.
pub proof fn rollback_lifts_no_block(
    world: World,
    request: RequestView,
    clock: Result<u64, Seq<char>>,
    id: Seq<char>,
    token: Seq<char>,
    at_ms: u64,
)
    requires
        world.blocks(id, token, at_ms),
        clock matches Ok(now_ms) ==> now_ms <= at_ms,
    ensures
        world.with_terminals(world.rolled_back(request, clock)).blocks(id, token, at_ms),
{
    if world.rolls_back(request, clock) {
        recording_keeps_blocks(
            world.terminals[id].revocations,
            request.operation->Acquire_0.token,
            revoked_until(clock->Ok_0),
            false,
            clock->Ok_0,
            token,
            at_ms,
        );
    }
}

/// A lease that was handed out can be taken back at once.
pub proof fn granted_lease_rolls_back(
    world: World,
    request: RequestView,
    now_ms: u64,
    clock: Result<u64, Seq<char>>,
)
    requires
        request.operation is Acquire,
        world.apply(request, Ok(now_ms)).changed,
        clock is Ok,
    ensures
        world.with_terminals(world.apply(request, Ok(now_ms)).terminals).rolls_back(request, clock),
{
}

/// Releasing the same token again is answered as it was the first time, and changes
/// nothing, as long as the first answer had room on record.
pub proof fn release_is_repeatable(world: World, r: ReleaseView, now_ms: u64, at_ms: u64)
    requires
        world.release_verdict(r, Ok(now_ms)) is Clear || world.release_verdict(r, Ok(now_ms)) is Preempt,
        now_ms <= at_ms < revoked_until(now_ms),
        world.terminals[r.terminal_id].revocations.live(now_ms).len()
            < world.terminals[r.terminal_id].revocations.capacity,
    ensures
        ({
            let first = world.release(r, Ok(now_ms));
            let next = world.with_terminals(first.terminals);
            next.release(r, Ok(at_ms)) == next.unchanged(first.result)
        }),
{
    let released = match world.release_verdict(r, Ok(now_ms)) {
        ReleaseVerdict::Clear { released, .. } => released,
        _ => false,
    };
    recorded_release_is_repeated(
        world.terminals[r.terminal_id].revocations,
        r.token,
        revoked_until(now_ms),
        released,
        now_ms,
        at_ms,
    );
}

/// Every lease that is held has a proper token and a proper job name.
pub open spec fn leases_proper(terminals: Map<Seq<char>, TerminalView>) -> bool {
    forall|id: Seq<char>| #[trigger]
        terminals.contains_key(id) ==> (terminals[id].wait_lease matches Some(lease) ==> {
            &&& valid_token(lease.token)
            &&& valid_job_id(lease.job_id)
        })
}

/// No request puts an improper lease on record.
pub proof fn requests_keep_leases_proper(
    world: World,
    request: RequestView,
    clock: Result<u64, Seq<char>>,
)
    requires
        leases_proper(world.terminals),
    ensures
        leases_proper(world.apply(request, clock).terminals),
        leases_proper(world.rolled_back(request, clock)),
{
    let next = world.apply(request, clock).terminals;
    assert forall|id: Seq<char>| #[trigger] next.contains_key(id) implies (
    next[id].wait_lease matches Some(lease) ==> {
        &&& valid_token(lease.token)
        &&& valid_job_id(lease.job_id)
    }) by {
        assert(world.terminals.contains_key(id));
    }
    let back = world.rolled_back(request, clock);
    assert forall|id: Seq<char>| #[trigger] back.contains_key(id) implies (
    back[id].wait_lease matches Some(lease) ==> {
        &&& valid_token(lease.token)
        &&& valid_job_id(lease.job_id)
    }) by {
        assert(world.terminals.contains_key(id));
    }
}

/// The terminals whose leases are dropped lose them; the others stay as they are.
pub proof fn dropping_leases(
    terminals: Map<Seq<char>, TerminalView>,
    panes: Seq<PlacedPaneView>,
    id: Seq<char>,
)
    ensures
        leases_dropped(terminals, panes).dom() == terminals.dom(),
        terminals.contains_key(id) ==> {
            let after = leases_dropped(terminals, panes)[id];
            if exists|i: int| 0 <= i < panes.len() && (#[trigger] panes[i]).terminal_id == id {
                after == (TerminalView {
                    wait_lease: None,
                    revision: after.revision,
                    ..terminals[id]
                })
            } else {
                after == terminals[id]
            }
        },
    decreases panes.len(),
{
    if panes.len() > 0 {
        let front = panes.drop_last();
        dropping_leases(terminals, front, id);
        dropping_leases(terminals, front, panes.last().terminal_id);
        assert(leases_dropped(terminals, panes).dom() =~= terminals.dom());
        if terminals.contains_key(id) {
            if exists|i: int| 0 <= i < front.len() && (#[trigger] front[i]).terminal_id == id {
                let i = choose|i: int| 0 <= i < front.len() && (#[trigger] front[i]).terminal_id == id;
                assert(panes[i].terminal_id == id);
            } else if panes.last().terminal_id == id {
                assert(panes[panes.len() - 1].terminal_id == id);
            } else {
                assert forall|i: int| 0 <= i < panes.len() implies (#[trigger] panes[i]).terminal_id
                    != id by {
                    if i < front.len() {
                        assert(front[i].terminal_id != id);
                    }
                }
            }
        }
    } else {
        assert(leases_dropped(terminals, panes).dom() =~= terminals.dom());
    }
}

/// After the leases that had run out were dropped no pane shows such a lease, and the
/// leases that were running still are.
pub proof fn expiry_is_complete(world: World, now_ms: u64, pane: PlacedPaneView, id: Seq<char>)
    requires
        placed_panes(world.layout.workspaces).contains(pane),
    ensures
        ({
            let after = leases_dropped(world.terminals, world.expired_panes(now_ms));
            &&& !shows_expired(pane, after, now_ms)
            &&& world.terminals.contains_key(id) && world.terminals[id].active_lease(now_ms)
                ==> after.contains_key(id) && after[id] == world.terminals[id]
        }),
{
    let keep = |p: PlacedPaneView| shows_expired(p, world.terminals, now_ms);
    let all = placed_panes(world.layout.workspaces);
    let expired = world.expired_panes(now_ms);
    let after = leases_dropped(world.terminals, expired);
    filter_members(all, keep);
    dropping_leases(world.terminals, expired, pane.terminal_id);
    dropping_leases(world.terminals, expired, id);
    if shows_expired(pane, world.terminals, now_ms) {
        assert(expired.contains(pane));
        let k = choose|k: int| 0 <= k < expired.len() && expired[k] == pane;
        assert(expired[k].terminal_id == pane.terminal_id);
    }
    if world.terminals.contains_key(id) && world.terminals[id].active_lease(now_ms) {
        assert forall|i: int| 0 <= i < expired.len() implies (#[trigger] expired[i]).terminal_id
            != id by {
            assert(expired.contains(expired[i]));
            assert(keep(expired[i]));
        }
    }
}

/// What is blocked stays blocked when leases run out.
pub proof fn expiry_lifts_no_block(
    world: World,
    now_ms: u64,
    id: Seq<char>,
    token: Seq<char>,
    at_ms: u64,
)
    requires
        world.blocks(id, token, at_ms),
    ensures
        world.with_terminals(leases_dropped(world.terminals, world.expired_panes(now_ms))).blocks(
            id,
            token,
            at_ms,
        ),
{
    dropping_leases(world.terminals, world.expired_panes(now_ms), id);
}

/// What a release was answered is answered again, whatever requests are carried out in
/// between.
pub proof fn requests_keep_release_answers(
    world: World,
    request: RequestView,
    clock: Result<u64, Seq<char>>,
    id: Seq<char>,
    token: Seq<char>,
    at_ms: u64,
)
    requires
        world.terminals.contains_key(id),
        world.terminals[id].revocations.prior_release(token, at_ms) is Some,
        clock matches Ok(now_ms) ==> now_ms <= at_ms,
    ensures
        world.apply(request, clock).terminals[id].revocations.prior_release(token, at_ms)
            == world.terminals[id].revocations.prior_release(token, at_ms),
{
    if request.operation is Release && clock is Ok {
        let r = request.operation->Release_0;
        let now_ms = clock->Ok_0;
        let revocations = world.terminals[id].revocations;
        if r.token == token {
            blocks_only_run_out(revocations, token, now_ms, at_ms);
        } else {
            let released = match world.release_verdict(r, clock) {
                ReleaseVerdict::Clear { released, .. } => released,
                _ => false,
            };
            recording_keeps_other_answers(
                revocations,
                r.token,
                revoked_until(now_ms),
                released,
                now_ms,
                token,
                at_ms,
            );
        }
    }
}

/// A request that is replayed after its token was given up is refused for good: as long
/// as it could still be granted its token is blocked, and after that it has expired.
pub proof fn replayed_request_is_refused(
    world: World,
    r: ReleaseView,
    now_ms: u64,
    a: AcquireView,
    at_ms: u64,
)
    requires
        world.release_verdict(r, Ok(now_ms)) is Clear || world.release_verdict(r, Ok(now_ms)) is Preempt,
        a.terminal_id == r.terminal_id,
        a.token == r.token,
        a.requested_at_ms <= now_ms <= at_ms,
    ensures
        world.with_terminals(world.release(r, Ok(now_ms)).terminals).acquire(
            a,
            Ok(at_ms),
        ).result is Error,
{
    if at_ms < revoked_until(now_ms) {
        released_token_is_not_acquired_again(world, r, now_ms, a, at_ms);
    }
}

/// When a lease is given back, the state of the agent in its pane is derived anew before
/// readers are told of the pane: what the lease held back is not lost.
pub proof fn released_lease_derives_state_anew(
    world: World,
    r: ReleaseView,
    clock: Result<u64, Seq<char>>,
)
    requires
        world.release(r, clock).changed,
    ensures
        world.layout.resolve(r.pane_id) matches Some(pane) && pane.terminal_id == r.terminal_id
            && world.release(r, clock).effects == seq![recompute(pane), pane_updated(pane)],
{
}

/// When leases have run out, the state of the agent in each of their panes is derived
/// anew before readers are told of that pane.
pub proof fn expired_lease_derives_state_anew(panes: Seq<PlacedPaneView>, i: int)
    requires
        0 <= i < panes.len(),
    ensures
        drop_effects(panes).len() == 2 * panes.len(),
        drop_effects(panes)[2 * i] == recompute(panes[i]),
        drop_effects(panes)[2 * i + 1] == pane_updated(panes[i]),
    decreases panes.len(),
{
    let front = panes.drop_last();
    if front.len() == 0 {
        assert(drop_effects(front).len() == 0);
    } else if i < front.len() {
        expired_lease_derives_state_anew(front, i);
    } else {
        expired_lease_derives_state_anew(front, 0);
    }
}

} // verus!
