//! The records that a client and the server exchange about wait leases.

use crate::text::same;
use vstd::prelude::*;

verus! {

/// The version that every record carries.
pub const WAIT_LEASE_PROTOCOL_VERSION: u32 = 1;

/// What a client asks for.
#[derive(Debug, Clone, PartialEq, Eq)]
pub struct WaitLeaseRequest {
    pub version: u32,
    pub request_id: String,
    pub operation: WaitLeaseOperation,
}

#[derive(Debug, Clone, PartialEq, Eq)]
pub enum WaitLeaseOperation {
    Acquire {
        pane_id: String,
        terminal_id: String,
        terminal_generation: u64,
        job_id: String,
        ttl_ms: u64,
        token: String,
        requested_at_ms: u64,
    },
    Release {
        pane_id: String,
        terminal_id: String,
        terminal_generation: u64,
        job_id: String,
        token: String,
    },
}

/// What the server answers.
#[derive(Debug, Clone, PartialEq, Eq)]
pub struct WaitLeaseResponse {
    pub version: u32,
    pub request_id: String,
    pub result: WaitLeaseResponseResult,
}

#[derive(Debug, Clone, PartialEq, Eq)]
pub enum WaitLeaseResponseResult {
    Acquired { job_id: String, remaining_ms: u64, token: String },
    Released { released: bool },
    Error { code: String, message: String },
}

/// An acquire operation as a mathematical value.
#[verifier::ext_equal]
pub struct AcquireView {
    pub pane_id: Seq<char>,
    pub terminal_id: Seq<char>,
    pub terminal_generation: u64,
    pub job_id: Seq<char>,
    pub ttl_ms: u64,
    pub token: Seq<char>,
    pub requested_at_ms: u64,
}

/// A release operation as a mathematical value.
#[verifier::ext_equal]
pub struct ReleaseView {
    pub pane_id: Seq<char>,
    pub terminal_id: Seq<char>,
    pub terminal_generation: u64,
    pub job_id: Seq<char>,
    pub token: Seq<char>,
}

#[verifier::ext_equal]
pub enum OperationView {
    Acquire(AcquireView),
    Release(ReleaseView),
}

#[verifier::ext_equal]
pub struct RequestView {
    pub version: u32,
    pub request_id: Seq<char>,
    pub operation: OperationView,
}

#[verifier::ext_equal]
pub enum ResultView {
    Acquired { job_id: Seq<char>, remaining_ms: u64, token: Seq<char> },
    Released { released: bool },
    Error { code: Seq<char>, message: Seq<char> },
}

#[verifier::ext_equal]
pub struct ResponseView {
    pub version: u32,
    pub request_id: Seq<char>,
    pub result: ResultView,
}

impl View for WaitLeaseOperation {
    type V = OperationView;

    open spec fn view(&self) -> OperationView {
        match self {
            WaitLeaseOperation::Acquire {
                pane_id,
                terminal_id,
                terminal_generation,
                job_id,
                ttl_ms,
                token,
                requested_at_ms,
            } => OperationView::Acquire(
                AcquireView {
                    pane_id: pane_id@,
                    terminal_id: terminal_id@,
                    terminal_generation: *terminal_generation,
                    job_id: job_id@,
                    ttl_ms: *ttl_ms,
                    token: token@,
                    requested_at_ms: *requested_at_ms,
                },
            ),
            WaitLeaseOperation::Release { pane_id, terminal_id, terminal_generation, job_id, token } =>
                OperationView::Release(
                ReleaseView {
                    pane_id: pane_id@,
                    terminal_id: terminal_id@,
                    terminal_generation: *terminal_generation,
                    job_id: job_id@,
                    token: token@,
                },
            ),
        }
    }
}

impl View for WaitLeaseRequest {
    type V = RequestView;

    open spec fn view(&self) -> RequestView {
        RequestView {
            version: self.version,
            request_id: self.request_id@,
            operation: self.operation@,
        }
    }
}

impl View for WaitLeaseResponseResult {
    type V = ResultView;

    open spec fn view(&self) -> ResultView {
        match self {
            WaitLeaseResponseResult::Acquired { job_id, remaining_ms, token } =>
                ResultView::Acquired {
                job_id: job_id@,
                remaining_ms: *remaining_ms,
                token: token@,
            },
            WaitLeaseResponseResult::Released { released } => ResultView::Released {
                released: *released,
            },
            WaitLeaseResponseResult::Error { code, message } => ResultView::Error {
                code: code@,
                message: message@,
            },
        }
    }
}

impl View for WaitLeaseResponse {
    type V = ResponseView;

    open spec fn view(&self) -> ResponseView {
        ResponseView {
            version: self.version,
            request_id: self.request_id@,
            result: self.result@,
        }
    }
}

impl WaitLeaseResponse {
    pub fn acquired(request_id: String, job_id: String, remaining_ms: u64, token: String) -> (r: Self)
        ensures
            r@ == (ResponseView {
                version: WAIT_LEASE_PROTOCOL_VERSION,
                request_id: request_id@,
                result: ResultView::Acquired { job_id: job_id@, remaining_ms, token: token@ },
            }),
    {
        Self {
            version: WAIT_LEASE_PROTOCOL_VERSION,
            request_id,
            result: WaitLeaseResponseResult::Acquired { job_id, remaining_ms, token },
        }
    }

    pub fn released(request_id: String, released: bool) -> (r: Self)
        ensures
            r@ == (ResponseView {
                version: WAIT_LEASE_PROTOCOL_VERSION,
                request_id: request_id@,
                result: ResultView::Released { released },
            }),
    {
        Self {
            version: WAIT_LEASE_PROTOCOL_VERSION,
            request_id,
            result: WaitLeaseResponseResult::Released { released },
        }
    }

    pub fn error(request_id: String, code: String, message: String) -> (r: Self)
        ensures
            r@ == (ResponseView {
                version: WAIT_LEASE_PROTOCOL_VERSION,
                request_id: request_id@,
                result: ResultView::Error { code: code@, message: message@ },
            }),
    {
        Self {
            version: WAIT_LEASE_PROTOCOL_VERSION,
            request_id,
            result: WaitLeaseResponseResult::Error { code, message },
        }
    }

    /// Whether this is the answer to the request with the given identifier, in the
    /// version of the protocol that is spoken here.
    pub fn answers(&self, request_id: &str) -> (r: bool)
        ensures
            r == (self@.version == WAIT_LEASE_PROTOCOL_VERSION && self@.request_id == request_id@),
    {
        self.version == WAIT_LEASE_PROTOCOL_VERSION && same(self.request_id.as_str(), request_id)
    }
}

/// An error answer, with the news that nothing changed.
pub fn wait_lease_error(request_id: String, code: String, message: String) -> (r: (
    WaitLeaseResponse,
    bool,
))
    ensures
        r.0@ == (ResponseView {
            version: WAIT_LEASE_PROTOCOL_VERSION,
            request_id: request_id@,
            result: ResultView::Error { code: code@, message: message@ },
        }),
        !r.1,
{
    (WaitLeaseResponse::error(request_id, code, message), false)
}

/// The model of a record holds what the record holds.
pub proof fn records_are_modelled_as_they_are(
    request: WaitLeaseRequest,
    response: WaitLeaseResponse,
)
    ensures
        request@.version == request.version,
        request@.request_id == request.request_id@,
        request.operation matches WaitLeaseOperation::Acquire {
            pane_id,
            terminal_id,
            terminal_generation,
            job_id,
            ttl_ms,
            token,
            requested_at_ms,
        } ==> {
            &&& request@.operation matches OperationView::Acquire(a)
            &&& a.pane_id == pane_id@
            &&& a.terminal_id == terminal_id@
            &&& a.terminal_generation == terminal_generation
            &&& a.job_id == job_id@
            &&& a.ttl_ms == ttl_ms
            &&& a.token == token@
            &&& a.requested_at_ms == requested_at_ms
        },
        request.operation matches WaitLeaseOperation::Release {
            pane_id,
            terminal_id,
            terminal_generation,
            job_id,
            token,
        } ==> {
            &&& request@.operation matches OperationView::Release(r)
            &&& r.pane_id == pane_id@
            &&& r.terminal_id == terminal_id@
            &&& r.terminal_generation == terminal_generation
            &&& r.job_id == job_id@
            &&& r.token == token@
        },
        response@.version == response.version,
        response@.request_id == response.request_id@,
        response.result matches WaitLeaseResponseResult::Acquired { job_id, remaining_ms, token }
            ==> response@.result == (ResultView::Acquired {
            job_id: job_id@,
            remaining_ms,
            token: token@,
        }),
        response.result matches WaitLeaseResponseResult::Released { released } ==> response@.result
            == (ResultView::Released { released }),
        response.result matches WaitLeaseResponseResult::Error { code, message }
            ==> response@.result == (ResultView::Error { code: code@, message: message@ }),
{
}

} // verus!
