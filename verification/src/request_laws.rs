//! What a client can rely on: which requests are granted, which are refused, and what
//! each leaves behind.

use crate::app::{App, Effect};
use crate::layout::{placed_panes, PlacedPaneView};
use crate::layout_laws::{every_pane_is_listed, has_place, listed_pane_has_a_place, place_of};
use crate::lease_laws::{dropping_leases, expired_lease_derives_state_anew};
use crate::lease_sync::WaitLeaseSync;
use crate::leases::{drop_effects, leases_dropped, response, Outcome, World};
use crate::protocol::{
    AcquireView, OperationView, ReleaseView, RequestView, ResponseView, ResultView,
    WaitLeaseResponse,
};
use crate::refusal::clock_view;
use crate::revocations::{guard_is_up_while_there_is_no_room, no_answer_without_record, RevocationView};
use crate::sequences::filter_members;
use crate::terminal::{TerminalState, TerminalView};
use crate::text::{names_have_their_form, trimmed};
use crate::wait_lease::WaitLeaseView;
use vstd::prelude::*;
use vstd::utf8::encode_utf8;

verus! {

/// The answer is an error with a code and a message, and nothing else comes of the
/// request.
pub open spec fn is_refused(
    world: World,
    outcome: Outcome,
    code: Seq<char>,
    message: Seq<char>,
) -> bool {
    &&& outcome.result == (ResultView::Error { code, message })
    &&& !outcome.changed
    &&& outcome.terminals == world.terminals
    &&& outcome.effects.len() == 0
}

/// The text is sixty-four hexadecimal digits.
pub open spec fn looks_like_token(token: Seq<char>) -> bool {
    &&& token.len() == 64
    &&& forall|i: int|
        0 <= i < token.len() ==> ('0' <= #[trigger] token[i] <= '9' || 'a' <= token[i] <= 'f'
            || 'A' <= token[i] <= 'F')
}

/// The text names a job once the white space at its ends is gone.
pub open spec fn looks_like_job(job_id: Seq<char>) -> bool {
    1 <= encode_utf8(trimmed(job_id)).len() <= 128 && trimmed(job_id).len() > 0
}

/// The record has no room for another revocation, or had none for one that still counts.
pub open spec fn guard_is_up(terminal: TerminalView, now_ms: u64) -> bool {
    ||| terminal.revocations.entries.filter(
        |e: RevocationView| e.expires_at_ms > now_ms,
    ).len() >= terminal.revocations.capacity
    ||| terminal.revocations.saturated_until_ms > now_ms
}

/// A revocation of the token is on record and has not run out.
pub open spec fn on_record(terminal: TerminalView, token: Seq<char>, now_ms: u64) -> bool {
    exists|i: int|
        {
            &&& 0 <= i < terminal.revocations.entries.len()
            &&& (#[trigger] terminal.revocations.entries[i]).token == token
            &&& terminal.revocations.entries[i].expires_at_ms > now_ms
        }
}

/// Nothing but one terminal differs.
pub open spec fn only_terminal_differs(world: World, outcome: Outcome, id: Seq<char>) -> bool {
    &&& outcome.terminals.dom() == world.terminals.dom()
    &&& forall|other: Seq<char>|
        other != id && #[trigger] world.terminals.contains_key(other) ==> outcome.terminals[other]
            == world.terminals[other]
}

/// A sound acquire request is granted whenever the terminal that it names has no running
/// lease and its record of revocations does not stand in the way, whatever other
/// terminals hold. The lease runs until the time asked for has passed since the request.
pub proof fn sound_acquire_is_granted(
    world: World,
    request: RequestView,
    a: AcquireView,
    pane: PlacedPaneView,
    now_ms: u64,
)
    requires
        request.version == 1,
        request.operation == OperationView::Acquire(a),
        world.layout.resolve(a.pane_id) == Some(pane),
        pane.terminal_id == a.terminal_id,
        looks_like_job(a.job_id),
        1 <= a.ttl_ms <= 86_400_000,
        looks_like_token(a.token),
        a.requested_at_ms <= now_ms < a.requested_at_ms + a.ttl_ms <= u64::MAX,
        world.terminals.contains_key(a.terminal_id),
        world.terminals[a.terminal_id].runtime_generation == a.terminal_generation,
        !guard_is_up(world.terminals[a.terminal_id], now_ms),
        !on_record(world.terminals[a.terminal_id], a.token, now_ms),
        world.terminals[a.terminal_id].wait_lease matches Some(lease) ==> lease.expires_at_ms
            <= now_ms,
    ensures
        ({
            let outcome = world.apply(request, Ok(now_ms));
            let before = world.terminals[a.terminal_id];
            let after = outcome.terminals[a.terminal_id];
            &&& outcome.result == (ResultView::Acquired {
                job_id: trimmed(a.job_id),
                remaining_ms: (a.requested_at_ms + a.ttl_ms - now_ms) as u64,
                token: a.token,
            })
            &&& outcome.changed
            &&& after.wait_lease == Some(
                WaitLeaseView {
                    job_id: trimmed(a.job_id),
                    token: a.token,
                    expires_at_ms: (a.requested_at_ms + a.ttl_ms) as u64,
                },
            )
            &&& after.revision == before.revision.wrapping_add(1)
            &&& after.runtime_generation == before.runtime_generation
            &&& after.state == before.state
            &&& after.revocations == before.revocations
            &&& only_terminal_differs(world, outcome, a.terminal_id)
            &&& outcome.effects == seq![
                Effect::PaneUpdated {
                    workspace_index: pane.workspace_index,
                    pane_id: pane.pane_id,
                },
            ]
        }),
{
    let terminal = world.terminals[a.terminal_id];
    names_have_their_form(a.token, trimmed(a.job_id));
    guard_is_up_while_there_is_no_room(terminal.revocations, now_ms);
    no_answer_without_record(terminal.revocations, a.token, now_ms);
    let outcome = world.apply(request, Ok(now_ms));
    assert(outcome.terminals.dom() =~= world.terminals.dom());
}

/// A request in another version of the protocol is refused.
pub proof fn other_version_is_refused(
    world: World,
    request: RequestView,
    clock: Result<u64, Seq<char>>,
)
    requires
        request.version != 1,
    ensures
        is_refused(
            world,
            world.apply(request, clock),
            "unsupported_wait_lease_version"@,
            "wait lease request version is not supported"@,
        ),
{
}

/// What is wrong with an acquire request in itself is looked at in a fixed order, and each
/// fault has its answer.
pub proof fn faulty_acquire_is_refused(
    world: World,
    request: RequestView,
    a: AcquireView,
    clock: Result<u64, Seq<char>>,
)
    requires
        request.version == 1,
        request.operation == OperationView::Acquire(a),
    ensures
        ({
            let outcome = world.apply(request, clock);
            let pane = world.layout.resolve(a.pane_id);
            if pane is None {
                is_refused(world, outcome, "pane_not_found"@, "pane was not found"@)
            } else if pane->0.terminal_id != a.terminal_id {
                is_refused(
                    world,
                    outcome,
                    "wait_lease_pane_generation_changed"@,
                    "pane generation changed before the lease was acquired"@,
                )
            } else if !looks_like_job(a.job_id) {
                is_refused(
                    world,
                    outcome,
                    "invalid_wait_lease_job_id"@,
                    "wait lease job id must be between 1 and 128 characters"@,
                )
            } else if !(1 <= a.ttl_ms <= 86_400_000) {
                is_refused(
                    world,
                    outcome,
                    "invalid_wait_lease_ttl"@,
                    "wait lease ttl must be between 1 and 86400000 milliseconds"@,
                )
            } else if !looks_like_token(a.token) {
                is_refused(
                    world,
                    outcome,
                    "invalid_wait_lease_token"@,
                    "wait lease token is invalid"@,
                )
            } else if clock is Err {
                is_refused(world, outcome, "wait_lease_clock_unavailable"@, clock->Err_0)
            } else {
                true
            }
        }),
{
    names_have_their_form(a.token, trimmed(a.job_id));
    if trimmed(a.job_id).len() > 0 {
        text_has_bytes(trimmed(a.job_id));
    }
}

proof fn text_has_bytes(text: Seq<char>)
    requires
        text.len() > 0,
    ensures
        encode_utf8(text).len() > 0,
{
    if encode_utf8(text).len() == 0 {
        vstd::utf8::encode_utf8_decode_utf8(text);
        vstd::utf8::encode_utf8_decode_utf8(Seq::empty());
        assert(encode_utf8(text) =~= encode_utf8(Seq::empty()));
    }
}

/// What stands against an acquire request that is sound in itself is looked at in a fixed
/// order too. Only the terminal that it names counts.
pub proof fn untimely_acquire_is_refused(
    world: World,
    request: RequestView,
    a: AcquireView,
    pane: PlacedPaneView,
    now_ms: u64,
)
    requires
        request.version == 1,
        request.operation == OperationView::Acquire(a),
        world.layout.resolve(a.pane_id) == Some(pane),
        pane.terminal_id == a.terminal_id,
        looks_like_job(a.job_id),
        1 <= a.ttl_ms <= 86_400_000,
        looks_like_token(a.token),
    ensures
        ({
            let outcome = world.apply(request, Ok(now_ms));
            let terminal = world.terminals[a.terminal_id];
            if a.requested_at_ms > now_ms {
                is_refused(
                    world,
                    outcome,
                    "wait_lease_clock_unverifiable"@,
                    "wait lease request clock is ahead of the server clock"@,
                )
            } else if a.requested_at_ms + a.ttl_ms > u64::MAX {
                is_refused(
                    world,
                    outcome,
                    "invalid_wait_lease_ttl"@,
                    "wait lease expiry overflowed the continuous clock"@,
                )
            } else if a.requested_at_ms + a.ttl_ms <= now_ms {
                is_refused(
                    world,
                    outcome,
                    "wait_lease_request_expired"@,
                    "wait lease request expired before the server processed it"@,
                )
            } else if !world.terminals.contains_key(a.terminal_id) {
                is_refused(world, outcome, "pane_not_found"@, "pane was not found"@)
            } else if terminal.runtime_generation != a.terminal_generation {
                is_refused(
                    world,
                    outcome,
                    "wait_lease_pane_generation_changed"@,
                    "pane generation changed before the lease was acquired"@,
                )
            } else if guard_is_up(terminal, now_ms) {
                is_refused(
                    world,
                    outcome,
                    "wait_lease_replay_guard_saturated"@,
                    "wait lease replay protection is saturated until prior revocations expire"@,
                )
            } else if on_record(terminal, a.token, now_ms) {
                is_refused(
                    world,
                    outcome,
                    "wait_lease_token_revoked"@,
                    "wait lease token was already released"@,
                )
            } else if terminal.wait_lease is Some && terminal.wait_lease->0.expires_at_ms > now_ms {
                let lease = terminal.wait_lease->0;
                if lease.token == a.token && lease.job_id == trimmed(a.job_id) {
                    // The holder asks again, and is told of the time that is left.
                    &&& outcome.result == (ResultView::Acquired {
                        job_id: trimmed(a.job_id),
                        remaining_ms: (lease.expires_at_ms - now_ms) as u64,
                        token: a.token,
                    })
                    &&& !outcome.changed
                    &&& outcome.terminals == world.terminals
                    &&& outcome.effects.len() == 0
                } else {
                    is_refused(
                        world,
                        outcome,
                        "wait_lease_active"@,
                        "pane already has an active wait lease"@,
                    )
                }
            } else {
                outcome.changed
            }
        }),
{
    let terminal = world.terminals[a.terminal_id];
    names_have_their_form(a.token, trimmed(a.job_id));
    guard_is_up_while_there_is_no_room(terminal.revocations, now_ms);
    record_tells(terminal, a.token, now_ms);
}

proof fn record_tells(terminal: TerminalView, token: Seq<char>, now_ms: u64)
    ensures
        on_record(terminal, token, now_ms) <==> terminal.revocations.revoked(token, now_ms),
        on_record(terminal, token, now_ms) <==> terminal.revocations.prior_release(
            token,
            now_ms,
        ) is Some,
{
    crate::revocations::revoked_while_on_record(terminal.revocations, token, now_ms);
}

/// What stands against a release request is looked at in a fixed order, and each fault has
/// its answer.
pub proof fn faulty_release_is_refused(
    world: World,
    request: RequestView,
    r: ReleaseView,
    clock: Result<u64, Seq<char>>,
)
    requires
        request.version == 1,
        request.operation == OperationView::Release(r),
    ensures
        ({
            let outcome = world.apply(request, clock);
            let pane = world.layout.resolve(r.pane_id);
            let terminal = world.terminals[r.terminal_id];
            if pane is None {
                is_refused(world, outcome, "pane_not_found"@, "pane was not found"@)
            } else if pane->0.terminal_id != r.terminal_id {
                is_refused(
                    world,
                    outcome,
                    "wait_lease_pane_generation_changed"@,
                    "pane generation changed before the lease was released"@,
                )
            } else if clock is Err {
                is_refused(world, outcome, "wait_lease_clock_unavailable"@, clock->Err_0)
            } else if !world.terminals.contains_key(r.terminal_id) {
                is_refused(world, outcome, "pane_not_found"@, "pane was not found"@)
            } else if terminal.runtime_generation != r.terminal_generation {
                is_refused(
                    world,
                    outcome,
                    "wait_lease_pane_generation_changed"@,
                    "pane generation changed before the lease was released"@,
                )
            } else if !looks_like_job(r.job_id) {
                is_refused(
                    world,
                    outcome,
                    "invalid_wait_lease_job_id"@,
                    "wait lease job id must be between 1 and 128 characters"@,
                )
            } else if !looks_like_token(r.token) {
                is_refused(
                    world,
                    outcome,
                    "invalid_wait_lease_token"@,
                    "wait lease token is invalid"@,
                )
            } else if !on_record(terminal, r.token, clock->Ok_0) && terminal.wait_lease is Some && (
            terminal.wait_lease->0.job_id != trimmed(r.job_id) || terminal.wait_lease->0.token
                != r.token) {
                is_refused(
                    world,
                    outcome,
                    "wait_lease_token_mismatch"@,
                    "wait lease owner token or job id does not match"@,
                )
            } else {
                outcome.result is Released
            }
        }),
{
    let terminal = world.terminals[r.terminal_id];
    names_have_their_form(r.token, trimmed(r.job_id));
    if trimmed(r.job_id).len() > 0 {
        text_has_bytes(trimmed(r.job_id));
    }
    if clock is Ok {
        record_tells(terminal, r.token, clock->Ok_0);
    }
}

/// A sound release request is answered from the record if its token is on it. Else it
/// takes back the lease that is its own, or, where there is none, keeps the token from
/// ever being used. Either way the token stays on record for a day.
pub proof fn sound_release_is_answered(
    world: World,
    request: RequestView,
    r: ReleaseView,
    pane: PlacedPaneView,
    now_ms: u64,
)
    requires
        request.version == 1,
        request.operation == OperationView::Release(r),
        world.layout.resolve(r.pane_id) == Some(pane),
        pane.terminal_id == r.terminal_id,
        world.terminals.contains_key(r.terminal_id),
        world.terminals[r.terminal_id].runtime_generation == r.terminal_generation,
        looks_like_job(r.job_id),
        looks_like_token(r.token),
        world.terminals[r.terminal_id].wait_lease matches Some(lease) ==> lease.job_id == trimmed(
            r.job_id,
        ) && lease.token == r.token,
    ensures
        ({
            let outcome = world.apply(request, Ok(now_ms));
            let before = world.terminals[r.terminal_id];
            let after = outcome.terminals[r.terminal_id];
            let a_day_on = if now_ms + 86_400_000 <= u64::MAX {
                (now_ms + 86_400_000) as u64
            } else {
                u64::MAX
            };
            if on_record(before, r.token, now_ms) {
                &&& outcome.result == (ResultView::Released {
                    released: before.revocations.prior_release(r.token, now_ms)->0,
                })
                &&& !outcome.changed
                &&& outcome.terminals == world.terminals
                &&& outcome.effects.len() == 0
            } else {
                let was_held = before.wait_lease is Some;
                let released = was_held && before.wait_lease->0.expires_at_ms > now_ms;
                &&& outcome.result == (ResultView::Released { released })
                &&& outcome.changed == was_held
                &&& after.wait_lease is None
                &&& after.revision == if was_held {
                    before.revision.wrapping_add(1)
                } else {
                    before.revision
                }
                &&& after.runtime_generation == before.runtime_generation
                &&& after.state == before.state
                &&& after.revocations == before.revocations.recorded(
                    r.token,
                    a_day_on,
                    released,
                    now_ms,
                )
                &&& only_terminal_differs(world, outcome, r.terminal_id)
                &&& outcome.effects == if was_held {
                    seq![
                        Effect::RecomputeAgentState {
                            workspace_index: pane.workspace_index,
                            pane_id: pane.pane_id,
                        },
                        Effect::PaneUpdated {
                            workspace_index: pane.workspace_index,
                            pane_id: pane.pane_id,
                        },
                    ]
                } else {
                    Seq::empty()
                }
            }
        }),
{
    let terminal = world.terminals[r.terminal_id];
    names_have_their_form(r.token, trimmed(r.job_id));
    record_tells(terminal, r.token, now_ms);
    let outcome = world.apply(request, Ok(now_ms));
    assert(outcome.terminals.dom() =~= world.terminals.dom());
}

/// An acquire request is taken back exactly if its lease is still the one that is held,
/// whether that is running or not. The lease is gone, the token stays on record for a
/// day as not released, and readers are told of the pane.
pub proof fn lost_grant_is_taken_back(
    world: World,
    request: RequestView,
    a: AcquireView,
    pane: PlacedPaneView,
    now_ms: u64,
)
    requires
        request.operation == OperationView::Acquire(a),
        world.layout.resolve(a.pane_id) == Some(pane),
        pane.terminal_id == a.terminal_id,
        world.terminals.contains_key(a.terminal_id),
        world.terminals[a.terminal_id].runtime_generation == a.terminal_generation,
    ensures
        ({
            let before = world.terminals[a.terminal_id];
            let next = world.rolled_back(request, Ok(now_ms));
            let effects = world.rollback_effects(request, Ok(now_ms));
            let a_day_on = if now_ms + 86_400_000 <= u64::MAX {
                (now_ms + 86_400_000) as u64
            } else {
                u64::MAX
            };
            if before.wait_lease is Some && before.wait_lease->0.token == a.token {
                &&& world.rolls_back(request, Ok(now_ms))
                &&& next.dom() == world.terminals.dom()
                &&& next[a.terminal_id] == (TerminalView {
                    wait_lease: None,
                    revision: before.revision.wrapping_add(1),
                    revocations: before.revocations.recorded(a.token, a_day_on, false, now_ms),
                    ..before
                })
                &&& forall|other: Seq<char>|
                    other != a.terminal_id && #[trigger] world.terminals.contains_key(other)
                        ==> next[other] == world.terminals[other]
                &&& effects == seq![
                    Effect::PaneUpdated {
                        workspace_index: pane.workspace_index,
                        pane_id: pane.pane_id,
                    },
                ]
            } else {
                &&& !world.rolls_back(request, Ok(now_ms))
                &&& next == world.terminals
                &&& effects.len() == 0
            }
        }),
{
    assert(world.rolled_back(request, Ok(now_ms)).dom() =~= world.terminals.dom());
}

/// Nothing is taken back without a clock, for a release, or where the request no longer
/// speaks of the terminal that its pane shows.
pub proof fn other_requests_are_not_taken_back(
    world: World,
    request: RequestView,
    clock: Result<u64, Seq<char>>,
)
    ensures
        clock is Err || request.operation is Release || (request.operation matches
            OperationView::Acquire(a) && (world.layout.resolve(a.pane_id) is None
            || world.layout.resolve(a.pane_id)->0.terminal_id != a.terminal_id
            || !world.terminals.contains_key(a.terminal_id)
            || world.terminals[a.terminal_id].runtime_generation != a.terminal_generation)) ==> {
            &&& !world.rolls_back(request, clock)
            &&& world.rolled_back(request, clock) == world.terminals
            &&& world.rollback_effects(request, clock).len() == 0
        },
{
}

/// After the leases that have run out were dropped, no terminal that some pane shows has
/// a lease whose expiry has come, and there was something to drop. The state of its agent
/// is derived anew before readers are told of the pane.
pub proof fn every_expired_lease_is_dropped(world: World, now_ms: u64, w: int, t: int, p: int)
    requires
        world.layout.workspaces.len() <= usize::MAX,
        has_place(world.layout.workspaces, w, t, p),
        ({
            let id = world.layout.workspaces[w][t][p].terminal_id;
            &&& world.terminals.contains_key(id)
            &&& world.terminals[id].wait_lease matches Some(lease)
            &&& lease.expires_at_ms <= now_ms
        }),
    ensures
        ({
            let pane = world.layout.workspaces[w][t][p];
            let expired = world.expired_panes(now_ms);
            let before = world.terminals[pane.terminal_id];
            let after = leases_dropped(world.terminals, expired)[pane.terminal_id];
            &&& expired.len() > 0
            &&& leases_dropped(world.terminals, expired).dom() == world.terminals.dom()
            &&& after.wait_lease is None
            &&& after.state == before.state
            &&& after.runtime_generation == before.runtime_generation
            &&& after.revocations == before.revocations
            &&& exists|k: int|
                {
                    &&& 0 <= k < expired.len()
                    &&& #[trigger] drop_effects(expired)[2 * k] == (Effect::RecomputeAgentState {
                        workspace_index: w as usize,
                        pane_id: pane.pane_id,
                    })
                    &&& drop_effects(expired)[2 * k + 1] == (Effect::PaneUpdated {
                        workspace_index: w as usize,
                        pane_id: pane.pane_id,
                    })
                }
        }),
{
    let workspaces = world.layout.workspaces;
    let pane = workspaces[w][t][p];
    let all = placed_panes(workspaces);
    let expired = world.expired_panes(now_ms);
    let keep = |q: PlacedPaneView| crate::leases::shows_expired(q, world.terminals, now_ms);
    every_pane_is_listed(workspaces, w, t, p);
    let i = place_of(workspaces, w, t, p);
    let placed = all[i];
    assert(all.contains(placed));
    filter_members(all, keep);
    assert(expired.contains(placed));
    let k = choose|k: int| 0 <= k < expired.len() && expired[k] == placed;
    dropping_leases(world.terminals, expired, pane.terminal_id);
    assert(expired[k].terminal_id == pane.terminal_id);
    expired_lease_derives_state_anew(expired, k);
    assert(drop_effects(expired)[2 * k] == (Effect::RecomputeAgentState {
        workspace_index: w as usize,
        pane_id: pane.pane_id,
    }));
}

/// A terminal keeps what it has unless a pane shows it and its lease has run out, and
/// where no pane shows such a terminal nothing is done at all.
pub proof fn running_lease_is_not_dropped(world: World, now_ms: u64, id: Seq<char>)
    requires
        world.layout.workspaces.len() <= usize::MAX,
    ensures
        ({
            let workspaces = world.layout.workspaces;
            let expired = world.expired_panes(now_ms);
            &&& world.terminals.contains_key(id) && (world.terminals[id].wait_lease matches Some(
                lease,
            ) ==> lease.expires_at_ms > now_ms) ==> leases_dropped(world.terminals, expired)[id]
                == world.terminals[id]
            &&& world.terminals.contains_key(id) && (forall|w: int, t: int, p: int| #[trigger]
                has_place(workspaces, w, t, p) ==> workspaces[w][t][p].terminal_id != id)
                ==> leases_dropped(world.terminals, expired)[id] == world.terminals[id]
            &&& (forall|w: int, t: int, p: int|
                {
                    &&& #[trigger] has_place(workspaces, w, t, p)
                    &&& world.terminals.contains_key(workspaces[w][t][p].terminal_id)
                } ==> (world.terminals[workspaces[w][t][p].terminal_id].wait_lease matches Some(
                    lease,
                ) ==> lease.expires_at_ms > now_ms)) ==> expired.len() == 0
        }),
{
    let workspaces = world.layout.workspaces;
    let all = placed_panes(workspaces);
    let expired = world.expired_panes(now_ms);
    let keep = |q: PlacedPaneView| crate::leases::shows_expired(q, world.terminals, now_ms);
    filter_members(all, keep);
    dropping_leases(world.terminals, expired, id);
    assert forall|k: int| 0 <= k < expired.len() implies {
        let q = #[trigger] expired[k];
        &&& keep(q)
        &&& exists|w: int, t: int, p: int| #[trigger]
            has_place(workspaces, w, t, p) && workspaces[w][t][p].terminal_id == q.terminal_id
    } by {
        assert(expired.contains(expired[k]));
        let i = choose|i: int| 0 <= i < all.len() && all[i] == expired[k];
        listed_pane_has_a_place(workspaces, i);
    }
    if expired.len() > 0 {
        let q = expired[0];
        assert(keep(q));
    }
}

/// An answer carries the identifier of its request, the version of the protocol and the
/// result, as they are.
pub proof fn answer_is_addressed(request_id: Seq<char>, result: ResultView)
    ensures
        response(request_id, result) == (ResponseView { version: 1, request_id, result }),
{
}

/// Carrying out a request leaves everything alone but the terminals and the work to do,
/// and the work comes behind what there was to do already.
pub proof fn request_touches_nothing_else(before: App, after: App, outcome: Outcome)
    requires
        App::carried_out(before, after, outcome),
    ensures
        after.terminals@ == outcome.terminals,
        after.effects@ == before.effects@ + outcome.effects,
        after.layout == before.layout,
        after.schedule == before.schedule,
        after.selection == before.selection,
        after.suppressed_repeat_keys == before.suppressed_repeat_keys,
        after.terminal_runtimes == before.terminal_runtimes,
        after.terminal_runtime_shutdowns == before.terminal_runtime_shutdowns,
{
}

/// So does whatever touches nothing but leases.
pub proof fn leases_touch_nothing_else(before: App, after: App)
    requires
        App::only_leases_differ(before, after),
    ensures
        after.layout == before.layout,
        after.schedule == before.schedule,
        after.selection == before.selection,
        after.suppressed_repeat_keys == before.suppressed_repeat_keys,
        after.terminal_runtimes == before.terminal_runtimes,
        after.terminal_runtime_shutdowns == before.terminal_runtime_shutdowns,
{
}

/// In a round the next request is the one that is carried out, and its own answer is
/// given. The round takes note that it is answered and whether it changed anything.
pub proof fn next_request_is_the_one_answered(
    before: App,
    sync: WaitLeaseSync,
    clock: Result<u64, String>,
    after: App,
    sync_after: WaitLeaseSync,
    answer: WaitLeaseResponse,
)
    requires
        App::answers_next(before, sync, clock, after, sync_after, answer),
    ensures
        ({
            let request = sync.requests@[sync.done as int]@;
            let outcome = before.world().apply(request, clock_view(clock));
            &&& after.terminals@ == outcome.terminals
            &&& after.effects@ == before.effects@ + outcome.effects
            &&& answer@.request_id == request.request_id
            &&& answer@.result == outcome.result
            &&& sync_after.requests == sync.requests
            &&& sync_after.done == sync.done
            &&& sync_after.answered == Some(outcome.changed)
            &&& sync_after.changed <==> sync.changed || outcome.changed
        }),
{
}

/// An answer that was delivered leaves everything as it is, and so does a request that
/// changed nothing. Only a change whose answer was lost is taken back. Either way the
/// round goes on to the next request.
pub proof fn delivered_answer_is_final(
    before: App,
    sync: WaitLeaseSync,
    delivered: bool,
    clock: Result<u64, String>,
    after: App,
    sync_after: WaitLeaseSync,
)
    requires
        App::settles(before, sync, delivered, clock, after, sync_after),
        sync.done < sync.requests@.len(),
        sync.answered is Some,
    ensures
        delivered || sync.answered == Some(false) ==> after == before && sync_after.changed
            == sync.changed,
        !delivered && sync.answered == Some(true) ==> {
            let request = sync.requests@[sync.done as int]@;
            &&& after.terminals@ == before.world().rolled_back(request, clock_view(clock))
            &&& after.effects@ == before.effects@ + before.world().rollback_effects(
                request,
                clock_view(clock),
            )
            &&& sync_after.changed <==> sync.changed || before.world().rolls_back(
                request,
                clock_view(clock),
            )
        },
        sync_after.requests == sync.requests,
        sync_after.done == sync.done + 1,
        sync_after.answered is None,
{
    assert(sync.done < sync.requests.len());
}

/// What the protocol reads is what the program holds.
pub proof fn protocol_reads_the_program(
    app: App,
    terminal: TerminalState,
    clock: Result<u64, String>,
)
    ensures
        app.world().layout == app.layout@,
        app.world().terminals == app.terminals@,
        app.world().with_terminals(app.terminals@) == app.world(),
        terminal@.runtime_generation == terminal.runtime_generation,
        terminal@.revision == terminal.revision,
        terminal@.state == terminal.state,
        terminal@.revocations == terminal.wait_lease_revocations@,
        terminal@.wait_lease is None <==> terminal.wait_lease is None,
        terminal.wait_lease matches Some(lease) ==> terminal@.wait_lease == Some(lease@),
        clock matches Ok(now_ms) ==> clock_view(clock) == Ok::<u64, Seq<char>>(now_ms),
        clock matches Err(text) ==> clock_view(clock) == Err::<u64, Seq<char>>(text@),
{
}

/// Each pane whose lease is dropped leaves its terminal without one and moves the revision
/// on by one, and touches no other terminal.
pub proof fn every_drop_moves_the_revision(
    terminals: Map<Seq<char>, TerminalView>,
    panes: Seq<PlacedPaneView>,
    pane: PlacedPaneView,
    other: Seq<char>,
)
    ensures
        leases_dropped(terminals, Seq::empty()) == terminals,
        ({
            let before = leases_dropped(terminals, panes);
            let after = leases_dropped(terminals, panes.push(pane));
            let id = pane.terminal_id;
            &&& after.dom() == before.dom()
            &&& before.contains_key(id) ==> after[id] == (TerminalView {
                runtime_generation: before[id].runtime_generation,
                revision: before[id].revision.wrapping_add(1),
                state: before[id].state,
                wait_lease: None,
                revocations: before[id].revocations,
            })
            &&& other != id && before.contains_key(other) ==> after[other] == before[other]
        }),
{
    let before = leases_dropped(terminals, panes);
    assert(panes.push(pane).drop_last() =~= panes);
    assert(leases_dropped(terminals, panes.push(pane)).dom() =~= before.dom());
}

/// The panes whose leases are dropped are all the panes of the layout, in their order,
/// that show a terminal with a lease whose expiry has come.
pub proof fn expired_panes_are_told_by_their_leases(world: World, now_ms: u64)
    ensures
        world.expired_panes(now_ms) == placed_panes(world.layout.workspaces).filter(
            |pane: PlacedPaneView|
                world.terminals.contains_key(pane.terminal_id)
                    && world.terminals[pane.terminal_id].wait_lease is Some
                    && world.terminals[pane.terminal_id].wait_lease->0.expires_at_ms <= now_ms,
        ),
{
    let shown = |pane: PlacedPaneView| crate::leases::shows_expired(pane, world.terminals, now_ms);
    let told = |pane: PlacedPaneView|
        world.terminals.contains_key(pane.terminal_id)
            && world.terminals[pane.terminal_id].wait_lease is Some
            && world.terminals[pane.terminal_id].wait_lease->0.expires_at_ms <= now_ms;
    assert(shown =~= told);
}

} // verus!
