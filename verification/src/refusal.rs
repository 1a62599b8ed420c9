//! Why a wait lease request is turned down.

use crate::protocol::ResultView;
use vstd::prelude::*;

verus! {

#[derive(Debug, Clone, Copy, PartialEq, Eq, Structural)]
pub enum Refusal {
    UnsupportedVersion,
    PaneNotFound,
    ChangedBeforeAcquire,
    ChangedBeforeRelease,
    InvalidJobId,
    InvalidTtl,
    InvalidToken,
    ClockUnavailable,
    ClockAhead,
    ExpiryOverflow,
    RequestExpired,
    ReplayGuardSaturated,
    TokenRevoked,
    LeaseActive,
    TokenMismatch,
}

impl Refusal {
    /// The code by which a client tells the refusals apart.
    pub open spec fn code(self) -> Seq<char> {
        match self {
            Refusal::UnsupportedVersion => "unsupported_wait_lease_version"@,
            Refusal::PaneNotFound => "pane_not_found"@,
            Refusal::ChangedBeforeAcquire => "wait_lease_pane_generation_changed"@,
            Refusal::ChangedBeforeRelease => "wait_lease_pane_generation_changed"@,
            Refusal::InvalidJobId => "invalid_wait_lease_job_id"@,
            Refusal::InvalidTtl => "invalid_wait_lease_ttl"@,
            Refusal::InvalidToken => "invalid_wait_lease_token"@,
            Refusal::ClockUnavailable => "wait_lease_clock_unavailable"@,
            Refusal::ClockAhead => "wait_lease_clock_unverifiable"@,
            Refusal::ExpiryOverflow => "invalid_wait_lease_ttl"@,
            Refusal::RequestExpired => "wait_lease_request_expired"@,
            Refusal::ReplayGuardSaturated => "wait_lease_replay_guard_saturated"@,
            Refusal::TokenRevoked => "wait_lease_token_revoked"@,
            Refusal::LeaseActive => "wait_lease_active"@,
            Refusal::TokenMismatch => "wait_lease_token_mismatch"@,
        }
    }

    /// The message for a human reader. That of a clock that cannot be read is what the
    /// clock itself reports.
    pub open spec fn message(self, clock: Result<u64, Seq<char>>) -> Seq<char> {
        match self {
            Refusal::UnsupportedVersion => "wait lease request version is not supported"@,
            Refusal::PaneNotFound => "pane was not found"@,
            Refusal::ChangedBeforeAcquire =>
                "pane generation changed before the lease was acquired"@,
            Refusal::ChangedBeforeRelease =>
                "pane generation changed before the lease was released"@,
            Refusal::InvalidJobId => "wait lease job id must be between 1 and 128 characters"@,
            Refusal::InvalidTtl => "wait lease ttl must be between 1 and 86400000 milliseconds"@,
            Refusal::InvalidToken => "wait lease token is invalid"@,
            Refusal::ClockUnavailable => match clock {
                Ok(_) => Seq::empty(),
                Err(text) => text,
            },
            Refusal::ClockAhead => "wait lease request clock is ahead of the server clock"@,
            Refusal::ExpiryOverflow => "wait lease expiry overflowed the continuous clock"@,
            Refusal::RequestExpired => "wait lease request expired before the server processed it"@,
            Refusal::ReplayGuardSaturated =>
                "wait lease replay protection is saturated until prior revocations expire"@,
            Refusal::TokenRevoked => "wait lease token was already released"@,
            Refusal::LeaseActive => "pane already has an active wait lease"@,
            Refusal::TokenMismatch => "wait lease owner token or job id does not match"@,
        }
    }

    /// The answer that carries the refusal.
    pub open spec fn result(self, clock: Result<u64, Seq<char>>) -> ResultView {
        ResultView::Error { code: self.code(), message: self.message(clock) }
    }

    pub fn code_text(self) -> (text: String)
        ensures
            text@ == self.code(),
    {
        let text = match self {
            Refusal::UnsupportedVersion => "unsupported_wait_lease_version",
            Refusal::PaneNotFound => "pane_not_found",
            Refusal::ChangedBeforeAcquire => "wait_lease_pane_generation_changed",
            Refusal::ChangedBeforeRelease => "wait_lease_pane_generation_changed",
            Refusal::InvalidJobId => "invalid_wait_lease_job_id",
            Refusal::InvalidTtl => "invalid_wait_lease_ttl",
            Refusal::InvalidToken => "invalid_wait_lease_token",
            Refusal::ClockUnavailable => "wait_lease_clock_unavailable",
            Refusal::ClockAhead => "wait_lease_clock_unverifiable",
            Refusal::ExpiryOverflow => "invalid_wait_lease_ttl",
            Refusal::RequestExpired => "wait_lease_request_expired",
            Refusal::ReplayGuardSaturated => "wait_lease_replay_guard_saturated",
            Refusal::TokenRevoked => "wait_lease_token_revoked",
            Refusal::LeaseActive => "wait_lease_active",
            Refusal::TokenMismatch => "wait_lease_token_mismatch",
        };
        text.to_owned()
    }

    pub fn message_text(self, clock: &Result<u64, String>) -> (text: String)
        ensures
            text@ == self.message(clock_view(*clock)),
    {
        let text = match self {
            Refusal::UnsupportedVersion => "wait lease request version is not supported",
            Refusal::PaneNotFound => "pane was not found",
            Refusal::ChangedBeforeAcquire =>
                "pane generation changed before the lease was acquired",
            Refusal::ChangedBeforeRelease =>
                "pane generation changed before the lease was released",
            Refusal::InvalidJobId => "wait lease job id must be between 1 and 128 characters",
            Refusal::InvalidTtl => "wait lease ttl must be between 1 and 86400000 milliseconds",
            Refusal::InvalidToken => "wait lease token is invalid",
            Refusal::ClockUnavailable => {
                return match clock {
                    Ok(_) => String::new(),
                    Err(text) => text.clone(),
                };
            },
            Refusal::ClockAhead => "wait lease request clock is ahead of the server clock",
            Refusal::ExpiryOverflow => "wait lease expiry overflowed the continuous clock",
            Refusal::RequestExpired => "wait lease request expired before the server processed it",
            Refusal::ReplayGuardSaturated =>
                "wait lease replay protection is saturated until prior revocations expire",
            Refusal::TokenRevoked => "wait lease token was already released",
            Refusal::LeaseActive => "pane already has an active wait lease",
            Refusal::TokenMismatch => "wait lease owner token or job id does not match",
        };
        text.to_owned()
    }
}

/// A reading of the continuous clock, or what it reports instead of one.
pub open spec fn clock_view(clock: Result<u64, String>) -> Result<u64, Seq<char>> {
    match clock {
        Ok(now_ms) => Ok(now_ms),
        Err(text) => Err(text@),
    }
}

} // verus!
