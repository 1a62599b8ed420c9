//! The client's side of the wait lease protocol: making a request, and waiting for the
//! answer to it.

use crate::leases::response;
use crate::protocol::{
    AcquireView, OperationView, ReleaseView, RequestView, ResultView, WaitLeaseOperation,
    WaitLeaseRequest, WaitLeaseResponse, WaitLeaseResponseResult, WAIT_LEASE_PROTOCOL_VERSION,
};
use crate::text::{
    hex_encode, hex_text, hex_text_is_hex, hex_text_tells_bytes_apart, is_hex_digit,
    is_lower_hex_digit, valid_token, TOKEN_DIGITS,
};
use vstd::prelude::*;
use vstd::string::StringExecFns;

verus! {

/// The random bytes in a token.
pub const TOKEN_BYTES: usize = 32;

/// The random bytes in the identifier of a request.
pub const REQUEST_ID_BYTES: usize = 16;

/// How long a client waits for an answer, in nanoseconds.
pub const WAIT_LEASE_RESPONSE_TIMEOUT_NS: u64 = 5_000_000_000;

/// How long a client sleeps between two looks for an answer, in nanoseconds.
pub const RESPONSE_POLL_INTERVAL_NS: u64 = 20_000_000;

/// The error of the `getrandom` crate, which is only carried to its text.
#[verifier::external_type_specification]
#[verifier::external_body]
pub struct ExRandomError(getrandom::Error);

/// `getrandom::fill`: overwrites the bytes with random ones from the operating system.
/// There are as many bytes as before, and no bytes at all are a success. What the bytes
/// are, and whether the operating system has any to give, is left open.
#[verifier::external_body]
fn fill_random(bytes: &mut Vec<u8>) -> (r: Result<(), getrandom::Error>)
    ensures
        final(bytes)@.len() == old(bytes)@.len(),
        old(bytes)@.len() == 0 ==> r is Ok,
{
    getrandom::fill(bytes.as_mut_slice())
}

/// The text of a `getrandom::Error`, written by its `Display`. It may be one that the
/// operating system supplies, so nothing is claimed of it.
#[verifier::external_body]
fn random_error_text(error: &getrandom::Error) -> (text: String) {
    format!("{error}")
}

/// Why no request could be made.
#[derive(Debug, Clone, PartialEq, Eq)]
pub enum ClientError {
    Random { message: String },
    Clock { message: String },
}

/// A text that writes a number of bytes as lower case hexadecimal digits, two for each.
pub open spec fn is_hex_of(text: Seq<char>, byte_count: nat) -> bool {
    exists|bytes: Seq<u8>| bytes.len() == byte_count && text == #[trigger] hex_text(bytes)
}

/// What such a text looks like. Other bytes give another text.
pub proof fn hex_of_bytes(text: Seq<char>, byte_count: nat)
    requires
        is_hex_of(text, byte_count),
    ensures
        text.len() == 2 * byte_count,
        forall|i: int| 0 <= i < text.len() ==> is_lower_hex_digit(#[trigger] text[i]),
        byte_count == TOKEN_BYTES ==> valid_token(text),
        forall|a: Seq<u8>, b: Seq<u8>|
            text == #[trigger] hex_text(a) && text == #[trigger] hex_text(b) ==> a == b,
{
    let bytes = choose|bytes: Seq<u8>| bytes.len() == byte_count && text == #[trigger] hex_text(bytes);
    hex_text_is_hex(bytes);
    assert forall|i: int| 0 <= i < text.len() implies is_lower_hex_digit(#[trigger] text[i]) by {
        assert(text[i] == hex_text(bytes)[i]);
    }
    if byte_count == TOKEN_BYTES {
        assert forall|i: int| 0 <= i < text.len() implies is_hex_digit(#[trigger] text[i]) by {
            assert(text[i] == hex_text(bytes)[i]);
        }
    }
    assert forall|a: Seq<u8>, b: Seq<u8>|
        text == #[trigger] hex_text(a) && text == #[trigger] hex_text(b) implies a == b by {
        hex_text_tells_bytes_apart(a, b);
    }
}

/// The text for what came of drawing random bytes: the bytes, or why there are none.
pub fn drawn_hex(draw: Result<Vec<u8>, String>) -> (r: Result<String, ClientError>)
    ensures
        match draw {
            Ok(bytes) => r matches Ok(text) && text@ == hex_text(bytes@),
            Err(reason) => r matches Err(ClientError::Random { message }) && message@
                == "random token generation failed: "@ + reason@,
        },
{
    match draw {
        Ok(bytes) => Ok(hex_encode(bytes.as_slice())),
        Err(reason) => {
            let mut message = "random token generation failed: ".to_owned();
            message.append(reason.as_str());
            Err(ClientError::Random { message })
        },
    }
}

/// Random bytes as hexadecimal digits.
pub fn random_hex(byte_count: usize) -> (r: Result<String, ClientError>)
    ensures
        r matches Ok(text) ==> is_hex_of(text@, byte_count as nat),
        byte_count == 0 ==> r is Ok,
        r matches Err(error) ==> (error matches ClientError::Random { message }
            && "random token generation failed: "@.is_prefix_of(message@)),
{
    let mut bytes: Vec<u8> = vec![0u8; byte_count];
    match fill_random(&mut bytes) {
        Ok(()) => {
            assert(bytes@.len() == byte_count);
            drawn_hex(Ok(bytes))
        },
        Err(error) => drawn_hex(Err(random_error_text(&error))),
    }
}

/// An acquire request with the given token and identifier.
pub fn acquire_request(
    request_id: String,
    pane_id: String,
    terminal_id: String,
    terminal_generation: u64,
    job_id: String,
    ttl_ms: u64,
    token: String,
    requested_at_ms: u64,
) -> (request: WaitLeaseRequest)
    ensures
        request@ == (RequestView {
            version: WAIT_LEASE_PROTOCOL_VERSION,
            request_id: request_id@,
            operation: OperationView::Acquire(
                AcquireView {
                    pane_id: pane_id@,
                    terminal_id: terminal_id@,
                    terminal_generation,
                    job_id: job_id@,
                    ttl_ms,
                    token: token@,
                    requested_at_ms,
                },
            ),
        }),
{
    WaitLeaseRequest {
        version: WAIT_LEASE_PROTOCOL_VERSION,
        request_id,
        operation: WaitLeaseOperation::Acquire {
            pane_id,
            terminal_id,
            terminal_generation,
            job_id,
            ttl_ms,
            token,
            requested_at_ms,
        },
    }
}

/// A release request with the given identifier.
pub fn release_request(
    request_id: String,
    pane_id: String,
    terminal_id: String,
    terminal_generation: u64,
    job_id: String,
    token: String,
) -> (request: WaitLeaseRequest)
    ensures
        request@ == (RequestView {
            version: WAIT_LEASE_PROTOCOL_VERSION,
            request_id: request_id@,
            operation: OperationView::Release(
                ReleaseView {
                    pane_id: pane_id@,
                    terminal_id: terminal_id@,
                    terminal_generation,
                    job_id: job_id@,
                    token: token@,
                },
            ),
        }),
{
    WaitLeaseRequest {
        version: WAIT_LEASE_PROTOCOL_VERSION,
        request_id,
        operation: WaitLeaseOperation::Release {
            pane_id,
            terminal_id,
            terminal_generation,
            job_id,
            token,
        },
    }
}

/// Makes the request to acquire a lease once its token and its identifier are drawn, if
/// the clock can be read.
pub fn acquire_from_draws(
    request_id: String,
    token: String,
    pane_id: String,
    terminal_id: String,
    terminal_generation: u64,
    job_id: String,
    ttl_ms: u64,
    clock: Result<u64, String>,
) -> (r: Result<WaitLeaseRequest, ClientError>)
    ensures
        match clock {
            Ok(requested_at_ms) => r matches Ok(request) && request@ == (RequestView {
                version: WAIT_LEASE_PROTOCOL_VERSION,
                request_id: request_id@,
                operation: OperationView::Acquire(
                    AcquireView {
                        pane_id: pane_id@,
                        terminal_id: terminal_id@,
                        terminal_generation,
                        job_id: job_id@,
                        ttl_ms,
                        token: token@,
                        requested_at_ms,
                    },
                ),
            }),
            Err(message) => r == Err::<WaitLeaseRequest, ClientError>(
                ClientError::Clock { message },
            ),
        },
{
    match clock {
        Ok(requested_at_ms) => Ok(
            acquire_request(
                request_id,
                pane_id,
                terminal_id,
                terminal_generation,
                job_id,
                ttl_ms,
                token,
                requested_at_ms,
            ),
        ),
        Err(message) => Err(ClientError::Clock { message }),
    }
}

/// Makes the request to acquire a lease, under a token and an identifier of its own.
pub fn acquire_wait_lease(
    pane_id: String,
    terminal_id: String,
    terminal_generation: u64,
    job_id: String,
    ttl_ms: u64,
    clock: Result<u64, String>,
) -> (r: Result<WaitLeaseRequest, ClientError>)
    ensures
        r matches Ok(request) ==> {
            &&& request@.version == WAIT_LEASE_PROTOCOL_VERSION
            &&& is_hex_of(request@.request_id, REQUEST_ID_BYTES as nat)
            &&& request@.operation matches OperationView::Acquire(a)
            &&& is_hex_of(a.token, TOKEN_BYTES as nat)
            &&& valid_token(a.token)
            &&& clock == Ok::<u64, String>(a.requested_at_ms)
            &&& a == (AcquireView {
                pane_id: pane_id@,
                terminal_id: terminal_id@,
                terminal_generation,
                job_id: job_id@,
                ttl_ms,
                token: a.token,
                requested_at_ms: a.requested_at_ms,
            })
        },
        clock is Err ==> r is Err,
        r matches Err(error) ==> match error {
            ClientError::Random { message } => "random token generation failed: "@.is_prefix_of(
                message@,
            ),
            ClientError::Clock { message } => clock == Err::<u64, String>(message),
        },
{
    let token = match random_hex(TOKEN_BYTES) {
        Ok(token) => token,
        Err(error) => {
            return Err(error);
        },
    };
    let request_id = match random_hex(REQUEST_ID_BYTES) {
        Ok(request_id) => request_id,
        Err(error) => {
            return Err(error);
        },
    };
    proof {
        hex_of_bytes(token@, TOKEN_BYTES as nat);
    }
    acquire_from_draws(
        request_id,
        token,
        pane_id,
        terminal_id,
        terminal_generation,
        job_id,
        ttl_ms,
        clock,
    )
}

/// Makes the request to release a lease, under an identifier of its own.
pub fn release_wait_lease(
    pane_id: String,
    terminal_id: String,
    terminal_generation: u64,
    job_id: String,
    token: String,
) -> (r: Result<WaitLeaseRequest, ClientError>)
    ensures
        r matches Ok(request) ==> {
            &&& is_hex_of(request@.request_id, REQUEST_ID_BYTES as nat)
            &&& request@ == (RequestView {
                version: WAIT_LEASE_PROTOCOL_VERSION,
                request_id: request@.request_id,
                operation: OperationView::Release(
                    ReleaseView {
                        pane_id: pane_id@,
                        terminal_id: terminal_id@,
                        terminal_generation,
                        job_id: job_id@,
                        token: token@,
                    },
                ),
            })
        },
        r matches Err(error) ==> (error matches ClientError::Random { message }
            && "random token generation failed: "@.is_prefix_of(message@)),
{
    match random_hex(REQUEST_ID_BYTES) {
        Ok(request_id) => Ok(
            release_request(request_id, pane_id, terminal_id, terminal_generation, job_id, token),
        ),
        Err(error) => Err(error),
    }
}

/// What a look for the answer found.
#[derive(Debug, Clone, PartialEq, Eq)]
pub enum ResponseRead {
    /// There is no answer yet.
    Missing,
    /// There is one, but it could not be read.
    Unreadable,
    /// There is one, but it is no record of the protocol.
    Malformed,
    Parsed { response: WaitLeaseResponse },
}

/// How waiting for an answer ends.
#[derive(Debug, Clone, PartialEq, Eq)]
pub enum SubmitEnd {
    Answered { result: WaitLeaseResponseResult },
    /// The answer belongs to another request or to another version of the protocol.
    Mismatched,
    Malformed,
    Unreadable,
    TimedOut,
}

/// What a client does after a look for the answer. Without an end it sleeps and looks
/// again.
#[derive(Debug, Clone, PartialEq, Eq)]
pub struct SubmitStep {
    pub remove_response: bool,
    pub remove_request: bool,
    pub end: Option<SubmitEnd>,
}

/// The moment at which a client that asks at `now` gives up.
pub fn response_deadline(now: u64) -> (deadline: u64)
    requires
        now + WAIT_LEASE_RESPONSE_TIMEOUT_NS <= u64::MAX,
    ensures
        deadline == now + WAIT_LEASE_RESPONSE_TIMEOUT_NS,
{
    now + WAIT_LEASE_RESPONSE_TIMEOUT_NS
}

/// Decides what follows from a look for the answer.
pub fn submit_step(read: ResponseRead, request_id: &str, now: u64, deadline: u64) -> (step: SubmitStep)
    ensures
        step.remove_response <==> read is Malformed || read is Parsed,
        step.remove_request <==> read is Malformed || read is Parsed || (read is Missing && now
            >= deadline),
        match read {
            ResponseRead::Missing => step.end == if now >= deadline {
                Some(SubmitEnd::TimedOut)
            } else {
                None
            },
            ResponseRead::Unreadable => step.end == Some(SubmitEnd::Unreadable),
            ResponseRead::Malformed => step.end == Some(SubmitEnd::Malformed),
            ResponseRead::Parsed { response } => step.end == Some(
                if response@.version == WAIT_LEASE_PROTOCOL_VERSION && response@.request_id
                    == request_id@ {
                    SubmitEnd::Answered { result: response.result }
                } else {
                    SubmitEnd::Mismatched
                },
            ),
        },
{
    match read {
        ResponseRead::Missing => {
            if now >= deadline {
                SubmitStep {
                    remove_response: false,
                    remove_request: true,
                    end: Some(SubmitEnd::TimedOut),
                }
            } else {
                SubmitStep { remove_response: false, remove_request: false, end: None }
            }
        },
        ResponseRead::Unreadable => SubmitStep {
            remove_response: false,
            remove_request: false,
            end: Some(SubmitEnd::Unreadable),
        },
        ResponseRead::Malformed => SubmitStep {
            remove_response: true,
            remove_request: true,
            end: Some(SubmitEnd::Malformed),
        },
        ResponseRead::Parsed { response } => {
            let end = if response.answers(request_id) {
                SubmitEnd::Answered { result: response.result }
            } else {
                SubmitEnd::Mismatched
            };
            SubmitStep { remove_response: true, remove_request: true, end: Some(end) }
        },
    }
}

/// What a client whose wait ended without an answer reports.
pub fn submit_error_text(end: &SubmitEnd) -> (text: Option<String>)
    ensures
        match end {
            SubmitEnd::Mismatched => text matches Some(t) && t@
                == "wait lease response did not match its request"@,
            SubmitEnd::TimedOut => text matches Some(t) && t@
                == "Herdr did not process the wait lease request within 5 seconds"@,
            _ => text is None,
        },
{
    match end {
        SubmitEnd::Mismatched => Some("wait lease response did not match its request".to_owned()),
        SubmitEnd::TimedOut => Some(
            "Herdr did not process the wait lease request within 5 seconds".to_owned(),
        ),
        _ => None,
    }
}

/// The answer that the server gives to a request is one that the client takes.
pub proof fn server_answer_is_taken(request: RequestView, result: ResultView)
    ensures
        response(request.request_id, result).version == WAIT_LEASE_PROTOCOL_VERSION,
        response(request.request_id, result).request_id == request.request_id,
{
}

/// A token that a client draws has the length that the server asks for, and a client looks
/// for its answer fifty times a second before it gives up after five seconds.
pub proof fn client_and_server_fit()
    ensures
        2 * TOKEN_BYTES == TOKEN_DIGITS == 64,
        2 * REQUEST_ID_BYTES == 32,
        WAIT_LEASE_RESPONSE_TIMEOUT_NS == 250 * RESPONSE_POLL_INTERVAL_NS,
        RESPONSE_POLL_INTERVAL_NS == 20_000_000,
{
}

} // verus!
