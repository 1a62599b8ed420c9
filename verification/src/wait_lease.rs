//! A wait lease: the claim, by a named job, that a pane is waiting for work in the
//! background until a given moment of the continuous clock.

use crate::text::same;
use vstd::prelude::*;

verus! {

/// The longest time, in milliseconds, that a lease may be asked for.
pub const MAX_WAIT_LEASE_TTL_MS: u64 = 86_400_000;

/// A lease in the hands of a job that holds its token.
#[derive(Debug, Clone, PartialEq, Eq)]
pub struct WaitLease {
    job_id: String,
    token: String,
    expires_at_ms: u64,
}

/// What a lease that is still running shows to a reader.
#[derive(Debug, Clone, PartialEq, Eq)]
pub struct ActiveWaitLease {
    pub job_id: String,
    pub remaining_ms: u64,
}

/// A lease as a mathematical value.
#[verifier::ext_equal]
pub struct WaitLeaseView {
    pub job_id: Seq<char>,
    pub token: Seq<char>,
    pub expires_at_ms: u64,
}

impl WaitLeaseView {
    /// A lease runs strictly before its expiry.
    pub open spec fn active(self, now_ms: u64) -> bool {
        now_ms < self.expires_at_ms
    }

    /// The job and the token that a request has to name to speak for this lease.
    pub open spec fn owned_by(self, job_id: Seq<char>, token: Seq<char>) -> bool {
        self.job_id == job_id && self.token == token
    }
}

impl View for WaitLease {
    type V = WaitLeaseView;

    closed spec fn view(&self) -> WaitLeaseView {
        WaitLeaseView {
            job_id: self.job_id@,
            token: self.token@,
            expires_at_ms: self.expires_at_ms,
        }
    }
}

impl WaitLease {
    pub fn new(job_id: String, token: String, expires_at_ms: u64) -> (lease: Self)
        ensures
            lease@ == (WaitLeaseView { job_id: job_id@, token: token@, expires_at_ms }),
    {
        Self { job_id, token, expires_at_ms }
    }

    pub fn job_id(&self) -> (r: &str)
        ensures
            r@ == self@.job_id,
    {
        self.job_id.as_str()
    }

    pub fn token(&self) -> (r: &str)
        ensures
            r@ == self@.token,
    {
        self.token.as_str()
    }

    pub fn expires_at_ms(&self) -> (r: u64)
        ensures
            r == self@.expires_at_ms,
    {
        self.expires_at_ms
    }

    pub fn is_active_at(&self, now_ms: u64) -> (r: bool)
        ensures
            r == self@.active(now_ms),
    {
        now_ms < self.expires_at_ms
    }

    /// The job of a running lease with the time that is left to it.
    pub fn active_at(&self, now_ms: u64) -> (r: Option<ActiveWaitLease>)
        ensures
            r is Some <==> self@.active(now_ms),
            r matches Some(active) ==> {
                &&& active.job_id@ == self@.job_id
                &&& active.remaining_ms == self@.expires_at_ms - now_ms
            },
    {
        if self.is_active_at(now_ms) {
            Some(
                ActiveWaitLease {
                    job_id: self.job_id.clone(),
                    remaining_ms: self.expires_at_ms.saturating_sub(now_ms),
                },
            )
        } else {
            None
        }
    }

    pub fn token_matches(&self, token: &str) -> (r: bool)
        ensures
            r == (self@.token == token@),
    {
        same(self.token.as_str(), token)
    }
}

/// Once a lease has stopped running it never runs again.
pub proof fn lease_stays_inactive(lease: WaitLeaseView, then_ms: u64, later_ms: u64)
    requires
        then_ms <= later_ms,
        !lease.active(then_ms),
    ensures
        !lease.active(later_ms),
{
}

/// A lease runs at every moment before its expiry and at no other. Its owner is who
/// names both its job and its token.
pub proof fn lease_runs_until_its_expiry(
    lease: WaitLeaseView,
    now_ms: u64,
    job_id: Seq<char>,
    token: Seq<char>,
)
    ensures
        lease.active(now_ms) <==> lease.expires_at_ms > now_ms,
        lease.owned_by(job_id, token) <==> !(lease.job_id != job_id || lease.token != token),
{
}

} // verus!
