use herdr::client::{
    acquire_from_draws, acquire_wait_lease, drawn_hex, random_hex, release_wait_lease, response_deadline, submit_error_text,
    submit_step, ClientError, ResponseRead, SubmitEnd, SubmitStep,
};
use herdr::exchange::{
    pending_request_names, request_file_is_readable, request_file_step, request_path,
    response_path, temporary_name, wait_lease_root, FoundRequestFile, RequestFileStep,
};
use herdr::protocol::{WaitLeaseOperation, WaitLeaseResponse, WaitLeaseResponseResult};
use herdr::text::{hex_encode, job_id_is_valid, token_is_valid, trim};

fn names(list: &[&str]) -> Vec<Vec<u8>> {
    list.iter().map(|name| name.as_bytes().to_vec()).collect()
}

#[test]
fn request_files_are_taken_in_the_order_of_their_names() {
    assert_eq!(
        pending_request_names(&names(&[
            "b.json",
            ".hidden.json.tmp",
            "a.json",
            "notes.txt",
            "B.json",
            "json",
            ".json",
            "a.jso",
            "aa.json",
        ])),
        names(&["B.json", "a.json", "aa.json", "b.json"])
    );
    assert!(pending_request_names(&Vec::new()).is_empty());
}

#[test]
fn one_round_takes_sixty_four_request_files() {
    let mut all = Vec::new();
    for i in (0..100).rev() {
        all.push(format!("{i:03}.json").into_bytes());
    }
    let pending = pending_request_names(&all);
    assert_eq!(pending.len(), 64);
    assert_eq!(pending[0], b"000.json".to_vec());
    assert_eq!(pending[63], b"063.json".to_vec());
}

#[test]
fn large_files_and_other_things_are_not_read() {
    assert!(request_file_is_readable(true, 0));
    assert!(request_file_is_readable(true, 16 * 1024));
    assert!(!request_file_is_readable(true, 16 * 1024 + 1));
    assert!(!request_file_is_readable(false, 10));
}

#[test]
fn request_file_is_taken_only_when_it_holds_a_request() {
    assert_eq!(
        request_file_step(FoundRequestFile::Hidden),
        RequestFileStep::Skip
    );
    let inspected = |is_file: bool, len: u64| {
        request_file_step(FoundRequestFile::Inspected { is_file, len })
    };
    assert_eq!(inspected(true, 16 * 1024), RequestFileStep::Read);
    assert_eq!(inspected(true, 16 * 1024 + 1), RequestFileStep::Remove);
    assert_eq!(inspected(false, 0), RequestFileStep::Remove);
    assert_eq!(
        request_file_step(FoundRequestFile::Unreadable),
        RequestFileStep::Remove
    );
    assert_eq!(
        request_file_step(FoundRequestFile::Malformed),
        RequestFileStep::Remove
    );
    let request = release_wait_lease(
        "w1-p7".into(),
        "term_1".into(),
        0,
        "job".into(),
        "t".into(),
    )
    .unwrap();
    assert_eq!(
        request_file_step(FoundRequestFile::Parsed {
            request: request.clone(),
        }),
        RequestFileStep::Take { request }
    );
}

#[test]
fn files_are_named_after_their_requests() {
    assert_eq!(request_path("ab12"), "requests/ab12.json");
    assert_eq!(response_path("ab12"), "responses/ab12.json");
    assert_ne!(request_path("ab12"), request_path("ab13"));
    // An absolute name stands for itself.
    assert_eq!(request_path("/ab12"), "/ab12.json");
    assert_eq!(wait_lease_root(Some("api.sock")), "api.sock.wait-leases");
    assert_eq!(wait_lease_root(None), "herdr.sock.wait-leases");
    assert_eq!(
        temporary_name(Some("ab12.json"), "00ff"),
        ".ab12.json.00ff.tmp"
    );
    assert_eq!(temporary_name(None, "00ff"), ".wait-lease.00ff.tmp");
}

#[test]
fn random_text_is_hexadecimal_and_new_every_time() {
    let first = random_hex(32).unwrap();
    let second = random_hex(32).unwrap();
    assert_eq!(first.len(), 64);
    assert!(first
        .bytes()
        .all(|byte| byte.is_ascii_digit() || (b'a'..=b'f').contains(&byte)));
    assert_ne!(first, second);
    assert_ne!(first, "0".repeat(64));
    assert_eq!(random_hex(0), Ok(String::new()));
}

#[test]
fn draw_is_written_out_or_its_failure_told() {
    assert_eq!(
        drawn_hex(Ok(vec![0xab, 0x01])),
        Ok("ab01".to_string())
    );
    assert_eq!(
        drawn_hex(Err("no entropy".into())),
        Err(ClientError::Random {
            message: "random token generation failed: no entropy".into(),
        })
    );
}

#[test]
fn bytes_are_written_as_two_digits_each() {
    assert_eq!(hex_encode(&[0x00, 0x0f, 0xa5, 0xff]), "000fa5ff");
    assert_eq!(hex_encode(&[]), "");
}

#[test]
fn white_space_is_cut_off_at_both_ends() {
    assert_eq!(trim("  a b \t\n"), "a b");
    assert_eq!(trim("\u{a0}\u{3000}x\u{2003}"), "x");
    assert_eq!(trim(" \r\n"), "");
    assert_eq!(trim("\u{200b}x"), "\u{200b}x");
}

#[test]
fn tokens_and_job_ids_are_checked_by_their_bytes() {
    assert!(token_is_valid(&"aF0".repeat(22)[..64]));
    assert!(!token_is_valid(&"a".repeat(65)));
    assert!(!token_is_valid(&"\u{e9}".repeat(32)));
    assert!(job_id_is_valid("x"));
    assert!(job_id_is_valid(&"\u{e9}".repeat(64)));
    assert!(!job_id_is_valid(&"\u{e9}".repeat(65)));
    assert!(!job_id_is_valid(""));
}

#[test]
fn acquire_request_is_made_under_a_new_token() {
    let request = acquire_wait_lease(
        "w1-p7".into(),
        "term_1".into(),
        3,
        "job".into(),
        60_000,
        Ok(5_000),
    )
    .unwrap();
    assert_eq!(request.version, 1);
    assert_eq!(request.request_id.len(), 32);
    match request.operation {
        WaitLeaseOperation::Acquire {
            pane_id,
            terminal_id,
            terminal_generation,
            job_id,
            ttl_ms,
            token,
            requested_at_ms,
        } => {
            assert_eq!(pane_id, "w1-p7");
            assert_eq!(terminal_id, "term_1");
            assert_eq!(terminal_generation, 3);
            assert_eq!(job_id, "job");
            assert_eq!(ttl_ms, 60_000);
            assert!(token_is_valid(&token));
            assert_eq!(requested_at_ms, 5_000);
        }
        WaitLeaseOperation::Release { .. } => panic!("a release was made"),
    }
}

#[test]
fn drawn_request_carries_its_draws_or_tells_of_the_clock() {
    let made = |clock: Result<u64, String>| {
        acquire_from_draws(
            "id".into(),
            "token".into(),
            "w1-p7".into(),
            "term_1".into(),
            3,
            "job".into(),
            60_000,
            clock,
        )
    };
    let request = made(Ok(5_000)).unwrap();
    assert_eq!(request.version, 1);
    assert_eq!(request.request_id, "id");
    assert_eq!(
        request.operation,
        WaitLeaseOperation::Acquire {
            pane_id: "w1-p7".into(),
            terminal_id: "term_1".into(),
            terminal_generation: 3,
            job_id: "job".into(),
            ttl_ms: 60_000,
            token: "token".into(),
            requested_at_ms: 5_000,
        }
    );
    assert_eq!(
        made(Err("no clock here".into())),
        Err(ClientError::Clock {
            message: "no clock here".into(),
        })
    );
}

#[test]
fn acquire_request_needs_the_clock() {
    assert_eq!(
        acquire_wait_lease(
            "w1-p7".into(),
            "term_1".into(),
            0,
            "job".into(),
            1,
            Err("no clock here".into())
        ),
        Err(ClientError::Clock {
            message: "no clock here".into(),
        })
    );
}

#[test]
fn release_request_carries_the_token_it_is_given() {
    let request = release_wait_lease(
        "w1-p7".into(),
        "term_1".into(),
        3,
        "job".into(),
        "secret".into(),
    )
    .unwrap();
    assert_eq!(request.request_id.len(), 32);
    assert_eq!(
        request.operation,
        WaitLeaseOperation::Release {
            pane_id: "w1-p7".into(),
            terminal_id: "term_1".into(),
            terminal_generation: 3,
            job_id: "job".into(),
            token: "secret".into(),
        }
    );
}

#[test]
fn client_takes_the_answer_to_its_own_request() {
    let response = WaitLeaseResponse::released("id".into(), true);
    assert_eq!(
        submit_step(ResponseRead::Parsed { response }, "id", 0, 10),
        SubmitStep {
            remove_response: true,
            remove_request: true,
            end: Some(SubmitEnd::Answered {
                result: WaitLeaseResponseResult::Released { released: true },
            }),
        }
    );
}

#[test]
fn client_rejects_the_answer_to_another_request_or_version() {
    let other = WaitLeaseResponse::released("other".into(), true);
    assert_eq!(
        submit_step(ResponseRead::Parsed { response: other }, "id", 0, 10).end,
        Some(SubmitEnd::Mismatched)
    );
    let newer = WaitLeaseResponse {
        version: 2,
        ..WaitLeaseResponse::released("id".into(), true)
    };
    assert_eq!(
        submit_step(ResponseRead::Parsed { response: newer }, "id", 0, 10).end,
        Some(SubmitEnd::Mismatched)
    );
    assert_eq!(
        submit_error_text(&SubmitEnd::Mismatched).as_deref(),
        Some("wait lease response did not match its request")
    );
}

#[test]
fn client_waits_five_seconds_for_an_answer() {
    assert_eq!(response_deadline(7), 5_000_000_007);
    let waiting = submit_step(ResponseRead::Missing, "id", 9, 10);
    assert_eq!(waiting.end, None);
    assert!(!waiting.remove_request);
    let over = submit_step(ResponseRead::Missing, "id", 10, 10);
    assert_eq!(over.end, Some(SubmitEnd::TimedOut));
    assert!(over.remove_request);
    assert!(!over.remove_response);
    assert_eq!(
        submit_error_text(&SubmitEnd::TimedOut).as_deref(),
        Some("Herdr did not process the wait lease request within 5 seconds")
    );
}

#[test]
fn client_gives_up_on_an_answer_that_it_cannot_read() {
    let unreadable = submit_step(ResponseRead::Unreadable, "id", 0, 10);
    assert_eq!(unreadable.end, Some(SubmitEnd::Unreadable));
    assert!(!unreadable.remove_request);
    let malformed = submit_step(ResponseRead::Malformed, "id", 0, 10);
    assert_eq!(malformed.end, Some(SubmitEnd::Malformed));
    assert!(malformed.remove_response && malformed.remove_request);
    assert_eq!(submit_error_text(&SubmitEnd::Malformed), None);
}
