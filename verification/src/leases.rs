//! The server's side of the wait lease protocol: who gets a lease, who may give it
//! back, and what happens to it in between.

use crate::app::{App, Effect};
use crate::layout::{placed_panes, LayoutView, PlacedPane, PlacedPaneView};
use crate::protocol::{
    wait_lease_error, AcquireView, OperationView, ReleaseView, RequestView, ResponseView,
    ResultView, WaitLeaseOperation, WaitLeaseRequest, WaitLeaseResponse,
    WAIT_LEASE_PROTOCOL_VERSION,
};
use crate::refusal::{clock_view, Refusal};
use crate::sequences::filter_extends;
use crate::terminal::TerminalView;
use crate::text::{
    job_id_is_valid, same, token_is_valid, trim, trimmed, valid_job_id, valid_token,
};
use crate::wait_lease::{WaitLease, WaitLeaseView, MAX_WAIT_LEASE_TTL_MS};
use vstd::prelude::*;

verus! {

/// What a request to acquire a lease comes to.
#[derive(Debug, Clone, Copy, PartialEq, Eq, Structural)]
pub enum AcquireVerdict {
    Refuse { refusal: Refusal },
    /// The same job holds the lease already, with the same token.
    Renew { remaining_ms: u64 },
    Grant { now_ms: u64, expires_at_ms: u64 },
}

/// What a request to release a lease comes to.
#[derive(Debug, Clone, Copy, PartialEq, Eq, Structural)]
pub enum ReleaseVerdict {
    Refuse { refusal: Refusal },
    /// The token was released before, and is answered as it was then.
    Repeat { released: bool },
    /// There is no lease: the token is revoked before it can be used.
    Preempt { now_ms: u64 },
    Clear { now_ms: u64, released: bool },
}

/// What the protocol reads: the layout and the terminals.
#[verifier::ext_equal]
pub struct World {
    pub layout: LayoutView,
    pub terminals: Map<Seq<char>, TerminalView>,
}

/// What a request leads to: the answer, whether it changed what readers see, the
/// terminals after it and the work it leaves to do.
#[verifier::ext_equal]
pub struct Outcome {
    pub result: ResultView,
    pub changed: bool,
    pub terminals: Map<Seq<char>, TerminalView>,
    pub effects: Seq<Effect>,
}

/// The moment until which a token that is given up at `now_ms` stays revoked.
pub open spec fn revoked_until(now_ms: u64) -> u64 {
    now_ms.saturating_add(MAX_WAIT_LEASE_TTL_MS)
}

impl TerminalView {
    /// The terminal after `token` was revoked at `now_ms`.
    pub open spec fn revoking(self, token: Seq<char>, released: bool, now_ms: u64) -> TerminalView {
        TerminalView {
            revocations: self.revocations.recorded(token, revoked_until(now_ms), released, now_ms),
            ..self
        }
    }
}

pub open spec fn pane_updated(pane: PlacedPaneView) -> Effect {
    Effect::PaneUpdated { workspace_index: pane.workspace_index, pane_id: pane.pane_id }
}

pub open spec fn recompute(pane: PlacedPaneView) -> Effect {
    Effect::RecomputeAgentState { workspace_index: pane.workspace_index, pane_id: pane.pane_id }
}

impl World {
    /// An answer that leaves everything as it was.
    pub open spec fn unchanged(self, result: ResultView) -> Outcome {
        Outcome { result, changed: false, terminals: self.terminals, effects: Seq::empty() }
    }

    pub open spec fn acquire_verdict(
        self,
        a: AcquireView,
        clock: Result<u64, Seq<char>>,
    ) -> AcquireVerdict {
        let pane = self.layout.resolve(a.pane_id);
        if pane is None {
            AcquireVerdict::Refuse { refusal: Refusal::PaneNotFound }
        } else if pane->0.terminal_id != a.terminal_id {
            AcquireVerdict::Refuse { refusal: Refusal::ChangedBeforeAcquire }
        } else if !valid_job_id(trimmed(a.job_id)) {
            AcquireVerdict::Refuse { refusal: Refusal::InvalidJobId }
        } else if a.ttl_ms == 0 || a.ttl_ms > MAX_WAIT_LEASE_TTL_MS {
            AcquireVerdict::Refuse { refusal: Refusal::InvalidTtl }
        } else if !valid_token(a.token) {
            AcquireVerdict::Refuse { refusal: Refusal::InvalidToken }
        } else {
            match clock {
                Err(_) => AcquireVerdict::Refuse { refusal: Refusal::ClockUnavailable },
                Ok(now_ms) => self.acquire_verdict_at(a, now_ms),
            }
        }
    }

    /// The verdict on a request that is sound in itself.
    pub open spec fn acquire_verdict_at(self, a: AcquireView, now_ms: u64) -> AcquireVerdict {
        if a.requested_at_ms > now_ms {
            AcquireVerdict::Refuse { refusal: Refusal::ClockAhead }
        } else if a.requested_at_ms + a.ttl_ms > u64::MAX {
            AcquireVerdict::Refuse { refusal: Refusal::ExpiryOverflow }
        } else if now_ms >= a.requested_at_ms + a.ttl_ms {
            AcquireVerdict::Refuse { refusal: Refusal::RequestExpired }
        } else if !self.terminals.contains_key(a.terminal_id) {
            AcquireVerdict::Refuse { refusal: Refusal::PaneNotFound }
        } else {
            let terminal = self.terminals[a.terminal_id];
            if terminal.runtime_generation != a.terminal_generation {
                AcquireVerdict::Refuse { refusal: Refusal::ChangedBeforeAcquire }
            } else if terminal.revocations.saturated(now_ms) {
                AcquireVerdict::Refuse { refusal: Refusal::ReplayGuardSaturated }
            } else if terminal.revocations.revoked(a.token, now_ms) {
                AcquireVerdict::Refuse { refusal: Refusal::TokenRevoked }
            } else if terminal.active_lease(now_ms) {
                let lease = terminal.wait_lease->0;
                if lease.owned_by(trimmed(a.job_id), a.token) {
                    AcquireVerdict::Renew { remaining_ms: (lease.expires_at_ms - now_ms) as u64 }
                } else {
                    AcquireVerdict::Refuse { refusal: Refusal::LeaseActive }
                }
            } else {
                AcquireVerdict::Grant {
                    now_ms,
                    expires_at_ms: (a.requested_at_ms + a.ttl_ms) as u64,
                }
            }
        }
    }

    pub open spec fn acquire(self, a: AcquireView, clock: Result<u64, Seq<char>>) -> Outcome {
        let job_id = trimmed(a.job_id);
        match self.acquire_verdict(a, clock) {
            AcquireVerdict::Refuse { refusal } => self.unchanged(refusal.result(clock)),
            AcquireVerdict::Renew { remaining_ms } => self.unchanged(
                ResultView::Acquired { job_id, remaining_ms, token: a.token },
            ),
            AcquireVerdict::Grant { now_ms, expires_at_ms } => Outcome {
                result: ResultView::Acquired {
                    job_id,
                    remaining_ms: (expires_at_ms - now_ms) as u64,
                    token: a.token,
                },
                changed: true,
                terminals: self.terminals.insert(
                    a.terminal_id,
                    self.terminals[a.terminal_id].with_lease(
                        Some(WaitLeaseView { job_id, token: a.token, expires_at_ms }),
                    ),
                ),
                effects: seq![pane_updated(self.layout.resolve(a.pane_id)->0)],
            },
        }
    }

    pub open spec fn release_verdict(
        self,
        r: ReleaseView,
        clock: Result<u64, Seq<char>>,
    ) -> ReleaseVerdict {
        let pane = self.layout.resolve(r.pane_id);
        if pane is None {
            ReleaseVerdict::Refuse { refusal: Refusal::PaneNotFound }
        } else if pane->0.terminal_id != r.terminal_id {
            ReleaseVerdict::Refuse { refusal: Refusal::ChangedBeforeRelease }
        } else {
            match clock {
                Err(_) => ReleaseVerdict::Refuse { refusal: Refusal::ClockUnavailable },
                Ok(now_ms) => self.release_verdict_at(r, now_ms),
            }
        }
    }

    pub open spec fn release_verdict_at(self, r: ReleaseView, now_ms: u64) -> ReleaseVerdict {
        if !self.terminals.contains_key(r.terminal_id) {
            ReleaseVerdict::Refuse { refusal: Refusal::PaneNotFound }
        } else {
            let terminal = self.terminals[r.terminal_id];
            if terminal.runtime_generation != r.terminal_generation {
                ReleaseVerdict::Refuse { refusal: Refusal::ChangedBeforeRelease }
            } else if !valid_job_id(trimmed(r.job_id)) {
                ReleaseVerdict::Refuse { refusal: Refusal::InvalidJobId }
            } else if !valid_token(r.token) {
                ReleaseVerdict::Refuse { refusal: Refusal::InvalidToken }
            } else {
                match (terminal.revocations.prior_release(r.token, now_ms), terminal.wait_lease) {
                    (Some(released), _) => ReleaseVerdict::Repeat { released },
                    (None, None) => ReleaseVerdict::Preempt { now_ms },
                    (None, Some(lease)) => if lease.owned_by(trimmed(r.job_id), r.token) {
                        ReleaseVerdict::Clear { now_ms, released: lease.active(now_ms) }
                    } else {
                        ReleaseVerdict::Refuse { refusal: Refusal::TokenMismatch }
                    },
                }
            }
        }
    }

    pub open spec fn release(self, r: ReleaseView, clock: Result<u64, Seq<char>>) -> Outcome {
        let terminal = self.terminals[r.terminal_id];
        match self.release_verdict(r, clock) {
            ReleaseVerdict::Refuse { refusal } => self.unchanged(refusal.result(clock)),
            ReleaseVerdict::Repeat { released } => self.unchanged(ResultView::Released { released }),
            ReleaseVerdict::Preempt { now_ms } => Outcome {
                terminals: self.terminals.insert(
                    r.terminal_id,
                    terminal.revoking(r.token, false, now_ms),
                ),
                ..self.unchanged(ResultView::Released { released: false })
            },
            ReleaseVerdict::Clear { now_ms, released } => {
                let pane = self.layout.resolve(r.pane_id)->0;
                Outcome {
                    result: ResultView::Released { released },
                    changed: true,
                    terminals: self.terminals.insert(
                        r.terminal_id,
                        terminal.with_lease(None).revoking(r.token, released, now_ms),
                    ),
                    effects: seq![recompute(pane), pane_updated(pane)],
                }
            },
        }
    }

    /// What a request leads to, whichever it is.
    pub open spec fn apply(self, request: RequestView, clock: Result<u64, Seq<char>>) -> Outcome {
        if request.version != WAIT_LEASE_PROTOCOL_VERSION {
            self.unchanged(Refusal::UnsupportedVersion.result(clock))
        } else {
            match request.operation {
                OperationView::Acquire(a) => self.acquire(a, clock),
                OperationView::Release(r) => self.release(r, clock),
            }
        }
    }
}

impl World {
    /// An acquire request whose lease is still the one that is held.
    pub open spec fn rolls_back(
        self,
        request: RequestView,
        clock: Result<u64, Seq<char>>,
    ) -> bool {
        &&& clock is Ok
        &&& request.operation matches OperationView::Acquire(a)
        &&& self.layout.resolve(a.pane_id) matches Some(pane)
        &&& pane.terminal_id == a.terminal_id
        &&& self.terminals.contains_key(a.terminal_id)
        &&& self.terminals[a.terminal_id].runtime_generation == a.terminal_generation
        &&& self.terminals[a.terminal_id].wait_lease matches Some(lease)
        &&& lease.token == a.token
    }

    /// The work that follows when an acquire request is taken back.
    pub open spec fn rollback_effects(
        self,
        request: RequestView,
        clock: Result<u64, Seq<char>>,
    ) -> Seq<Effect> {
        if self.rolls_back(request, clock) {
            seq![pane_updated(self.layout.resolve(request.operation->Acquire_0.pane_id)->0)]
        } else {
            Seq::empty()
        }
    }

    /// The terminals after an acquire request was taken back.
    pub open spec fn rolled_back(
        self,
        request: RequestView,
        clock: Result<u64, Seq<char>>,
    ) -> Map<Seq<char>, TerminalView> {
        if self.rolls_back(request, clock) {
            let a = request.operation->Acquire_0;
            self.terminals.insert(
                a.terminal_id,
                self.terminals[a.terminal_id].with_lease(None).revoking(a.token, false, clock->Ok_0),
            )
        } else {
            self.terminals
        }
    }
}

/// The pane shows a terminal whose lease has run out.
pub open spec fn shows_expired(
    pane: PlacedPaneView,
    terminals: Map<Seq<char>, TerminalView>,
    now_ms: u64,
) -> bool {
    terminals.contains_key(pane.terminal_id) && terminals[pane.terminal_id].expired_lease(now_ms)
}

/// The terminals after the leases of some panes were dropped, one pane after the other.
pub open spec fn leases_dropped(
    terminals: Map<Seq<char>, TerminalView>,
    panes: Seq<PlacedPaneView>,
) -> Map<Seq<char>, TerminalView>
    decreases panes.len(),
{
    if panes.len() == 0 {
        terminals
    } else {
        let before = leases_dropped(terminals, panes.drop_last());
        let id = panes.last().terminal_id;
        if before.contains_key(id) {
            before.insert(id, before[id].with_lease(None))
        } else {
            before
        }
    }
}

/// The work that follows when the leases of some panes are dropped.
pub open spec fn drop_effects(panes: Seq<PlacedPaneView>) -> Seq<Effect>
    decreases panes.len(),
{
    if panes.len() == 0 {
        Seq::empty()
    } else {
        drop_effects(panes.drop_last()) + seq![recompute(panes.last()), pane_updated(panes.last())]
    }
}

impl World {
    /// The panes whose lease has run out, in the order of the layout.
    pub open spec fn expired_panes(self, now_ms: u64) -> Seq<PlacedPaneView> {
        placed_panes(self.layout.workspaces).filter(
            |pane: PlacedPaneView| shows_expired(pane, self.terminals, now_ms),
        )
    }
}

/// The answer to a request, given what it led to.
pub open spec fn response(request_id: Seq<char>, result: ResultView) -> ResponseView {
    ResponseView { version: WAIT_LEASE_PROTOCOL_VERSION, request_id, result }
}

impl App {
    pub open spec fn world(self) -> World {
        World { layout: self.layout@, terminals: self.terminals@ }
    }

    /// Nothing but the terminals and the work to do differs.
    pub open spec fn only_leases_differ(before: App, after: App) -> bool {
        after == (App { terminals: after.terminals, effects: after.effects, ..before })
    }

    /// A request that met `before` led to `outcome`, and `after` is what it left.
    pub open spec fn carried_out(before: App, after: App, outcome: Outcome) -> bool {
        &&& after.wf()
        &&& App::only_leases_differ(before, after)
        &&& after.terminals@ == outcome.terminals
        &&& after.effects@ == before.effects@ + outcome.effects
    }

    fn judge_acquire(
        &self,
        pane: &Option<PlacedPane>,
        terminal_id: &str,
        terminal_generation: u64,
        job_id: &str,
        ttl_ms: u64,
        token: &str,
        requested_at_ms: u64,
        clock: &Result<u64, String>,
        Ghost(a): Ghost<AcquireView>,
    ) -> (verdict: AcquireVerdict)
        requires
            self.wf(),
            match pane {
                Some(p) => self.layout@.resolve(a.pane_id) == Some(p@),
                None => self.layout@.resolve(a.pane_id) is None,
            },
            a.terminal_id == terminal_id@,
            a.terminal_generation == terminal_generation,
            trimmed(a.job_id) == job_id@,
            a.ttl_ms == ttl_ms,
            a.token == token@,
            a.requested_at_ms == requested_at_ms,
        ensures
            verdict == self.world().acquire_verdict(a, clock_view(*clock)),
    {
        let pane = match pane {
            Some(pane) => pane,
            None => {
                return AcquireVerdict::Refuse { refusal: Refusal::PaneNotFound };
            },
        };
        if !same(pane.terminal_id.as_str(), terminal_id) {
            return AcquireVerdict::Refuse { refusal: Refusal::ChangedBeforeAcquire };
        }
        if !job_id_is_valid(job_id) {
            return AcquireVerdict::Refuse { refusal: Refusal::InvalidJobId };
        }
        if ttl_ms == 0 || ttl_ms > MAX_WAIT_LEASE_TTL_MS {
            return AcquireVerdict::Refuse { refusal: Refusal::InvalidTtl };
        }
        if !token_is_valid(token) {
            return AcquireVerdict::Refuse { refusal: Refusal::InvalidToken };
        }
        let now_ms: u64 = match clock {
            Ok(now_ms) => *now_ms,
            Err(_) => {
                return AcquireVerdict::Refuse { refusal: Refusal::ClockUnavailable };
            },
        };
        if requested_at_ms > now_ms {
            return AcquireVerdict::Refuse { refusal: Refusal::ClockAhead };
        }
        let expires_at_ms: u64 = match requested_at_ms.checked_add(ttl_ms) {
            Some(expires_at_ms) => expires_at_ms,
            None => {
                return AcquireVerdict::Refuse { refusal: Refusal::ExpiryOverflow };
            },
        };
        if now_ms >= expires_at_ms {
            return AcquireVerdict::Refuse { refusal: Refusal::RequestExpired };
        }
        let terminal = match self.terminals.get(terminal_id) {
            Some(terminal) => terminal,
            None => {
                return AcquireVerdict::Refuse { refusal: Refusal::PaneNotFound };
            },
        };
        if terminal.runtime_generation != terminal_generation {
            return AcquireVerdict::Refuse { refusal: Refusal::ChangedBeforeAcquire };
        }
        if terminal.wait_lease_revocations.acquire_guard_saturated(now_ms) {
            return AcquireVerdict::Refuse { refusal: Refusal::ReplayGuardSaturated };
        }
        if terminal.wait_lease_revocations.token_is_revoked(token, now_ms) {
            return AcquireVerdict::Refuse { refusal: Refusal::TokenRevoked };
        }
        if let Some(existing) = &terminal.wait_lease {
            if existing.is_active_at(now_ms) {
                if existing.token_matches(token) && same(existing.job_id(), job_id) {
                    return AcquireVerdict::Renew {
                        remaining_ms: existing.expires_at_ms().saturating_sub(now_ms),
                    };
                }
                return AcquireVerdict::Refuse { refusal: Refusal::LeaseActive };
            }
        }
        AcquireVerdict::Grant { now_ms, expires_at_ms }
    }

    /// Hands out a lease, if nothing speaks against it.
    pub fn apply_wait_lease_acquire(
        &mut self,
        request_id: String,
        public_pane_id: &str,
        expected_terminal_id: &str,
        expected_terminal_generation: u64,
        job_id: &str,
        ttl_ms: u64,
        token: &str,
        requested_at_ms: u64,
        clock: &Result<u64, String>,
    ) -> (r: (WaitLeaseResponse, bool))
        requires
            old(self).wf(),
        ensures
            ({
                let outcome = old(self).world().acquire(
                    AcquireView {
                        pane_id: public_pane_id@,
                        terminal_id: expected_terminal_id@,
                        terminal_generation: expected_terminal_generation,
                        job_id: job_id@,
                        ttl_ms,
                        token: token@,
                        requested_at_ms,
                    },
                    clock_view(*clock),
                );
                &&& App::carried_out(*old(self), *final(self), outcome)
                &&& r.0@ == response(request_id@, outcome.result)
                &&& r.1 == outcome.changed
            }),
    {
        let ghost a = AcquireView {
            pane_id: public_pane_id@,
            terminal_id: expected_terminal_id@,
            terminal_generation: expected_terminal_generation,
            job_id: job_id@,
            ttl_ms,
            token: token@,
            requested_at_ms,
        };
        let pane = self.layout.resolve(public_pane_id);
        let normalized_job_id = trim(job_id);
        let verdict = self.judge_acquire(
            &pane,
            expected_terminal_id,
            expected_terminal_generation,
            normalized_job_id,
            ttl_ms,
            token,
            requested_at_ms,
            clock,
            Ghost(a),
        );
        let answer = match verdict {
            AcquireVerdict::Refuse { refusal } => {
                wait_lease_error(request_id, refusal.code_text(), refusal.message_text(clock))
            },
            AcquireVerdict::Renew { remaining_ms } => {
                (
                    WaitLeaseResponse::acquired(
                        request_id,
                        normalized_job_id.to_owned(),
                        remaining_ms,
                        token.to_owned(),
                    ),
                    false,
                )
            },
            AcquireVerdict::Grant { now_ms, expires_at_ms } => {
                if let Some(terminal) = self.terminals.get_mut(expected_terminal_id) {
                    terminal.wait_lease = Some(
                        WaitLease::new(
                            normalized_job_id.to_owned(),
                            token.to_owned(),
                            expires_at_ms,
                        ),
                    );
                    terminal.revision = terminal.revision.wrapping_add(1);
                }
                if let Some(pane) = pane {
                    self.effects.push(
                        Effect::PaneUpdated {
                            workspace_index: pane.workspace_index,
                            pane_id: pane.pane_id,
                        },
                    );
                }
                (
                    WaitLeaseResponse::acquired(
                        request_id,
                        normalized_job_id.to_owned(),
                        expires_at_ms.saturating_sub(now_ms),
                        token.to_owned(),
                    ),
                    true,
                )
            },
        };
        assert(self.effects@ =~= old(self).effects@ + old(self).world().acquire(
            a,
            clock_view(*clock),
        ).effects);
        answer
    }

    fn judge_release(
        &self,
        pane: &Option<PlacedPane>,
        terminal_id: &str,
        terminal_generation: u64,
        job_id: &str,
        token: &str,
        clock: &Result<u64, String>,
        Ghost(r): Ghost<ReleaseView>,
    ) -> (verdict: ReleaseVerdict)
        requires
            self.wf(),
            match pane {
                Some(p) => self.layout@.resolve(r.pane_id) == Some(p@),
                None => self.layout@.resolve(r.pane_id) is None,
            },
            r.terminal_id == terminal_id@,
            r.terminal_generation == terminal_generation,
            trimmed(r.job_id) == job_id@,
            r.token == token@,
        ensures
            verdict == self.world().release_verdict(r, clock_view(*clock)),
    {
        let pane = match pane {
            Some(pane) => pane,
            None => {
                return ReleaseVerdict::Refuse { refusal: Refusal::PaneNotFound };
            },
        };
        if !same(pane.terminal_id.as_str(), terminal_id) {
            return ReleaseVerdict::Refuse { refusal: Refusal::ChangedBeforeRelease };
        }
        let now_ms: u64 = match clock {
            Ok(now_ms) => *now_ms,
            Err(_) => {
                return ReleaseVerdict::Refuse { refusal: Refusal::ClockUnavailable };
            },
        };
        let terminal = match self.terminals.get(terminal_id) {
            Some(terminal) => terminal,
            None => {
                return ReleaseVerdict::Refuse { refusal: Refusal::PaneNotFound };
            },
        };
        if terminal.runtime_generation != terminal_generation {
            return ReleaseVerdict::Refuse { refusal: Refusal::ChangedBeforeRelease };
        }
        if !job_id_is_valid(job_id) {
            return ReleaseVerdict::Refuse { refusal: Refusal::InvalidJobId };
        }
        if !token_is_valid(token) {
            return ReleaseVerdict::Refuse { refusal: Refusal::InvalidToken };
        }
        if let Some(released) = terminal.wait_lease_revocations.prior_release_result(
            token,
            now_ms,
        ) {
            return ReleaseVerdict::Repeat { released };
        }
        match &terminal.wait_lease {
            None => ReleaseVerdict::Preempt { now_ms },
            Some(lease) => {
                if !same(lease.job_id(), job_id) || !lease.token_matches(token) {
                    return ReleaseVerdict::Refuse { refusal: Refusal::TokenMismatch };
                }
                ReleaseVerdict::Clear { now_ms, released: lease.is_active_at(now_ms) }
            },
        }
    }

    /// Takes a lease back from its owner.
    ///
    /// With the lease gone an agent may turn out to have finished its work while the
    /// lease held the news back, so the state of the agent is derived anew.
    pub fn apply_wait_lease_release(
        &mut self,
        request_id: String,
        public_pane_id: &str,
        expected_terminal_id: &str,
        expected_terminal_generation: u64,
        job_id: &str,
        token: &str,
        clock: &Result<u64, String>,
    ) -> (r: (WaitLeaseResponse, bool))
        requires
            old(self).wf(),
        ensures
            ({
                let outcome = old(self).world().release(
                    ReleaseView {
                        pane_id: public_pane_id@,
                        terminal_id: expected_terminal_id@,
                        terminal_generation: expected_terminal_generation,
                        job_id: job_id@,
                        token: token@,
                    },
                    clock_view(*clock),
                );
                &&& App::carried_out(*old(self), *final(self), outcome)
                &&& r.0@ == response(request_id@, outcome.result)
                &&& r.1 == outcome.changed
            }),
    {
        let ghost request = ReleaseView {
            pane_id: public_pane_id@,
            terminal_id: expected_terminal_id@,
            terminal_generation: expected_terminal_generation,
            job_id: job_id@,
            token: token@,
        };
        let pane = self.layout.resolve(public_pane_id);
        let verdict = self.judge_release(
            &pane,
            expected_terminal_id,
            expected_terminal_generation,
            trim(job_id),
            token,
            clock,
            Ghost(request),
        );
        let answer = match verdict {
            ReleaseVerdict::Refuse { refusal } => {
                wait_lease_error(request_id, refusal.code_text(), refusal.message_text(clock))
            },
            ReleaseVerdict::Repeat { released } => {
                (WaitLeaseResponse::released(request_id, released), false)
            },
            ReleaseVerdict::Preempt { now_ms } => {
                if let Some(terminal) = self.terminals.get_mut(expected_terminal_id) {
                    terminal.wait_lease_revocations.record(
                        token.to_owned(),
                        now_ms.saturating_add(MAX_WAIT_LEASE_TTL_MS),
                        false,
                        now_ms,
                    );
                }
                (WaitLeaseResponse::released(request_id, false), false)
            },
            ReleaseVerdict::Clear { now_ms, released } => {
                if let Some(terminal) = self.terminals.get_mut(expected_terminal_id) {
                    terminal.wait_lease = None;
                    terminal.wait_lease_revocations.record(
                        token.to_owned(),
                        now_ms.saturating_add(MAX_WAIT_LEASE_TTL_MS),
                        released,
                        now_ms,
                    );
                    terminal.revision = terminal.revision.wrapping_add(1);
                }
                if let Some(pane) = pane {
                    self.effects.push(
                        Effect::RecomputeAgentState {
                            workspace_index: pane.workspace_index,
                            pane_id: pane.pane_id,
                        },
                    );
                    self.effects.push(
                        Effect::PaneUpdated {
                            workspace_index: pane.workspace_index,
                            pane_id: pane.pane_id,
                        },
                    );
                }
                (WaitLeaseResponse::released(request_id, released), true)
            },
        };
        assert(self.effects@ =~= old(self).effects@ + old(self).world().release(
            request,
            clock_view(*clock),
        ).effects);
        answer
    }

    /// Carries out a request and answers it.
    pub fn apply_wait_lease_request(
        &mut self,
        request: &WaitLeaseRequest,
        clock: &Result<u64, String>,
    ) -> (r: (WaitLeaseResponse, bool))
        requires
            old(self).wf(),
        ensures
            ({
                let outcome = old(self).world().apply(request@, clock_view(*clock));
                &&& App::carried_out(*old(self), *final(self), outcome)
                &&& r.0@ == response(request@.request_id, outcome.result)
                &&& r.1 == outcome.changed
            }),
    {
        if request.version != WAIT_LEASE_PROTOCOL_VERSION {
            assert(self.effects@ =~= self.effects@ + Seq::<Effect>::empty());
            return wait_lease_error(
                request.request_id.clone(),
                Refusal::UnsupportedVersion.code_text(),
                Refusal::UnsupportedVersion.message_text(clock),
            );
        }
        match &request.operation {
            WaitLeaseOperation::Acquire {
                pane_id,
                terminal_id,
                terminal_generation,
                job_id,
                ttl_ms,
                token,
                requested_at_ms,
            } => self.apply_wait_lease_acquire(
                request.request_id.clone(),
                pane_id.as_str(),
                terminal_id.as_str(),
                *terminal_generation,
                job_id.as_str(),
                *ttl_ms,
                token.as_str(),
                *requested_at_ms,
                clock,
            ),
            WaitLeaseOperation::Release { pane_id, terminal_id, terminal_generation, job_id, token } =>
                self.apply_wait_lease_release(
                request.request_id.clone(),
                pane_id.as_str(),
                terminal_id.as_str(),
                *terminal_generation,
                job_id.as_str(),
                token.as_str(),
                clock,
            ),
        }
    }

    /// Takes a lease back whose holder never learned of it, and revokes its token.
    pub fn rollback_unacknowledged_wait_lease_acquire(
        &mut self,
        request: &WaitLeaseRequest,
        clock: &Result<u64, String>,
    ) -> (r: bool)
        requires
            old(self).wf(),
        ensures
            r == old(self).world().rolls_back(request@, clock_view(*clock)),
            final(self).wf(),
            App::only_leases_differ(*old(self), *final(self)),
            final(self).terminals@ == old(self).world().rolled_back(request@, clock_view(*clock)),
            final(self).effects@ == old(self).effects@ + old(self).world().rollback_effects(
                request@,
                clock_view(*clock),
            ),
            !r ==> *final(self) == *old(self),
    {
        assert(self.effects@ =~= self.effects@ + Seq::<Effect>::empty());
        let (pane_id, terminal_id, terminal_generation, token) = match &request.operation {
            WaitLeaseOperation::Acquire { pane_id, terminal_id, terminal_generation, token, .. } =>
                (pane_id, terminal_id, *terminal_generation, token),
            _ => {
                return false;
            },
        };
        let pane = match self.layout.resolve(pane_id.as_str()) {
            Some(pane) => pane,
            None => {
                return false;
            },
        };
        if !same(pane.terminal_id.as_str(), terminal_id.as_str()) {
            return false;
        }
        let now_ms: u64 = match clock {
            Ok(now_ms) => *now_ms,
            Err(_) => {
                return false;
            },
        };
        let held = match self.terminals.get(terminal_id.as_str()) {
            Some(terminal) => {
                if terminal.runtime_generation != terminal_generation {
                    false
                } else {
                    match &terminal.wait_lease {
                        Some(lease) => lease.token_matches(token.as_str()),
                        None => false,
                    }
                }
            },
            None => false,
        };
        if !held {
            return false;
        }
        if let Some(terminal) = self.terminals.get_mut(terminal_id.as_str()) {
            terminal.wait_lease = None;
            terminal.wait_lease_revocations.record(
                token.clone(),
                now_ms.saturating_add(MAX_WAIT_LEASE_TTL_MS),
                false,
                now_ms,
            );
            terminal.revision = terminal.revision.wrapping_add(1);
        }
        self.effects.push(
            Effect::PaneUpdated { workspace_index: pane.workspace_index, pane_id: pane.pane_id },
        );
        assert(self.effects@ =~= old(self).effects@ + old(self).world().rollback_effects(
            request@,
            clock_view(*clock),
        ));
        true
    }

    fn expired_panes(&self, now_ms: u64) -> (expired: Vec<PlacedPane>)
        requires
            self.wf(),
        ensures
            expired@.map_values(|p: PlacedPane| p@) == self.world().expired_panes(now_ms),
    {
        let ghost keep = |pane: PlacedPaneView| shows_expired(pane, self.terminals@, now_ms);
        let placed = self.layout.placed_panes();
        let ghost all = placed_panes(self.layout@.workspaces);
        let mut expired: Vec<PlacedPane> = Vec::new();
        let mut i: usize = 0;
        proof {
            reveal(Seq::filter);
            assert(all.len() == placed@.len());
            assert(expired@.map_values(|p: PlacedPane| p@) =~= all.take(0).filter(keep));
        }
        while i < placed.len()
            invariant
                i <= placed@.len(),
                self.wf(),
                keep == (|pane: PlacedPaneView| shows_expired(pane, self.terminals@, now_ms)),
                all == placed@.map_values(|p: PlacedPane| p@),
                expired@.map_values(|p: PlacedPane| p@) == all.take(i as int).filter(keep),
            decreases placed@.len() - i,
        {
            let pane = &placed[i];
            let ghost before = expired@;
            proof {
                assert(all[i as int] == pane@);
                filter_extends(all, keep, i as int);
            }
            if let Some(terminal) = self.terminals.get(pane.terminal_id.as_str()) {
                if let Some(lease) = &terminal.wait_lease {
                    if !lease.is_active_at(now_ms) {
                        expired.push(
                            PlacedPane {
                                workspace_index: pane.workspace_index,
                                pane_id: pane.pane_id,
                                terminal_id: pane.terminal_id.clone(),
                            },
                        );
                        assert(expired@.map_values(|p: PlacedPane| p@) =~= before.map_values(
                            |p: PlacedPane| p@,
                        ).push(pane@));
                    }
                }
            }
            i = i + 1;
        }
        assert(all.take(i as int) =~= all);
        expired
    }

    /// Drops the leases that have run out. Says whether there were any.
    ///
    /// As with a release, an agent may turn out to have finished its work, so its state
    /// is derived anew.
    pub fn expire_wait_leases(&mut self, clock: &Result<u64, String>) -> (r: bool)
        requires
            old(self).wf(),
        ensures
            final(self).wf(),
            App::only_leases_differ(*old(self), *final(self)),
            match clock {
                Ok(now_ms) => {
                    let expired = old(self).world().expired_panes(*now_ms);
                    &&& r == (expired.len() > 0)
                    &&& final(self).terminals@ == leases_dropped(old(self).terminals@, expired)
                    &&& final(self).effects@ == old(self).effects@ + drop_effects(expired)
                },
                Err(_) => !r && *final(self) == *old(self),
            },
    {
        let now_ms: u64 = match clock {
            Ok(now_ms) => *now_ms,
            Err(_) => {
                return false;
            },
        };
        let expired = self.expired_panes(now_ms);
        let ghost panes = self.world().expired_panes(now_ms);
        let mut i: usize = 0;
        assert(self.effects@ =~= old(self).effects@ + drop_effects(panes.take(0)));
        assert(panes.len() == expired@.len());
        while i < expired.len()
            invariant
                i <= expired@.len(),
                self.wf(),
                App::only_leases_differ(*old(self), *self),
                panes == expired@.map_values(|p: PlacedPane| p@),
                self.terminals@ == leases_dropped(old(self).terminals@, panes.take(i as int)),
                self.effects@ == old(self).effects@ + drop_effects(panes.take(i as int)),
            decreases expired@.len() - i,
        {
            let pane = &expired[i];
            proof {
                assert(panes[i as int] == pane@);
                assert(panes.take(i + 1).drop_last() =~= panes.take(i as int));
            }
            if let Some(terminal) = self.terminals.get_mut(pane.terminal_id.as_str()) {
                terminal.wait_lease = None;
                terminal.revision = terminal.revision.wrapping_add(1);
            }
            self.effects.push(
                Effect::RecomputeAgentState {
                    workspace_index: pane.workspace_index,
                    pane_id: pane.pane_id,
                },
            );
            self.effects.push(
                Effect::PaneUpdated {
                    workspace_index: pane.workspace_index,
                    pane_id: pane.pane_id,
                },
            );
            i = i + 1;
            assert(self.effects@ =~= old(self).effects@ + drop_effects(panes.take(i as int)));
        }
        assert(panes.take(i as int) =~= panes);
        expired.len() > 0
    }
}

} // verus!
