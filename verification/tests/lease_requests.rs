use herdr::app::{App, Effect};
use herdr::layout::{Layout, PaneState, PublicPane, Tab, Workspace};
use herdr::lease_sync::WaitLeaseSync;
use herdr::names::NameSet;
use herdr::protocol::{
    wait_lease_error, WaitLeaseOperation, WaitLeaseRequest, WaitLeaseResponse,
    WaitLeaseResponseResult,
};
use herdr::revocations::WaitLeaseRevocations;
use herdr::schedule::{GitRefresh, Intervals, Schedule};
use herdr::selection::SelectionState;
use herdr::terminal::{AgentState, TerminalState, TerminalTable};
use herdr::wait_lease::{WaitLease, MAX_WAIT_LEASE_TTL_MS};

const NOW_MS: u64 = 10_000_000;
const PANE: &str = "w1-p7";
const TERMINAL: &str = "term_1";

fn clock() -> Result<u64, String> {
    Ok(NOW_MS)
}

fn schedule() -> Schedule {
    Schedule {
        intervals: Intervals {
            animation: 100,
            headless_animation: 500,
            min_render: 16,
            resize_poll: 200,
            selection_autoscroll: 50,
            auto_update_check: 10_000,
            git_refresh: 5_000,
        },
        next_wait_lease_poll: 0,
        next_resize_poll: 0,
        config_diagnostic_deadline: None,
        toast_deadline: None,
        pending_agent_notification_deadline: None,
        managed_agent_deadline: None,
        copy_feedback_deadline: None,
        next_animation_tick: None,
        next_auto_update_check: None,
        next_agent_manifest_update_check: None,
        agent_metadata_deadline: None,
        pending_agent_resume_deadline: None,
        session_save_deadline: None,
        last_render_at: None,
        git: GitRefresh {
            in_flight: false,
            due_after_in_flight: false,
            last_refresh: 0,
        },
        config_diagnostic_shown: false,
        toast_shown: false,
        copy_feedback_shown: false,
        spinner_tick: 0,
        last_terminal_size: None,
        update_available: false,
    }
}

fn workspace(id: &str, pane_id: u32, terminal_id: &str) -> Workspace {
    Workspace {
        id: id.into(),
        tabs: vec![Tab {
            panes: vec![PaneState {
                pane_id,
                attached_terminal_id: terminal_id.into(),
            }],
        }],
    }
}

fn app_with_capacity(capacity: usize) -> App {
    let mut terminals = TerminalTable::new();
    terminals.insert("term_0".into(), TerminalState::new(AgentState::Idle, capacity));
    terminals.insert(TERMINAL.into(), TerminalState::new(AgentState::Idle, capacity));
    App {
        layout: Layout {
            workspaces: vec![
                workspace("active", 3, "term_0"),
                workspace("background", 7, TERMINAL),
            ],
            public_panes: vec![
                PublicPane {
                    public_id: "w0-p3".into(),
                    workspace_index: 0,
                    pane_id: 3,
                },
                PublicPane {
                    public_id: PANE.into(),
                    workspace_index: 1,
                    pane_id: 7,
                },
            ],
        },
        terminals,
        schedule: schedule(),
        selection: SelectionState {
            selection: None,
            selection_autoscroll: None,
            selection_autoscroll_deadline: None,
            selection_highlight_clear_deadline: None,
        },
        suppressed_repeat_keys: NameSet::new(),
        terminal_runtimes: NameSet::new(),
        terminal_runtime_shutdowns: Vec::new(),
        effects: Vec::new(),
    }
}

fn wait_lease_test_app() -> App {
    app_with_capacity(64)
}

fn acquire_request_for_job(
    public_pane_id: &str,
    terminal_id: &str,
    job_id: &str,
    token: &str,
    requested_at_ms: u64,
) -> WaitLeaseRequest {
    WaitLeaseRequest {
        version: 1,
        request_id: "acquire-request".into(),
        operation: WaitLeaseOperation::Acquire {
            pane_id: public_pane_id.into(),
            terminal_id: terminal_id.into(),
            terminal_generation: 0,
            job_id: job_id.into(),
            ttl_ms: 60_000,
            token: token.into(),
            requested_at_ms,
        },
    }
}

fn acquire_request(
    public_pane_id: &str,
    terminal_id: &str,
    token: &str,
    requested_at_ms: u64,
) -> WaitLeaseRequest {
    acquire_request_for_job(
        public_pane_id,
        terminal_id,
        "background-review",
        token,
        requested_at_ms,
    )
}

fn release_request(
    public_pane_id: &str,
    terminal_id: &str,
    job_id: &str,
    token: &str,
) -> WaitLeaseRequest {
    WaitLeaseRequest {
        version: 1,
        request_id: "release-request".into(),
        operation: WaitLeaseOperation::Release {
            pane_id: public_pane_id.into(),
            terminal_id: terminal_id.into(),
            terminal_generation: 0,
            job_id: job_id.into(),
            token: token.into(),
        },
    }
}

/// An acquire request with everything that can be wrong about it laid open.
fn acquire_with(
    generation: u64,
    job_id: &str,
    ttl_ms: u64,
    token: &str,
    requested_at_ms: u64,
) -> WaitLeaseRequest {
    WaitLeaseRequest {
        version: 1,
        request_id: "acquire-request".into(),
        operation: WaitLeaseOperation::Acquire {
            pane_id: PANE.into(),
            terminal_id: TERMINAL.into(),
            terminal_generation: generation,
            job_id: job_id.into(),
            ttl_ms,
            token: token.into(),
            requested_at_ms,
        },
    }
}

fn code(response: &WaitLeaseResponse) -> &str {
    match &response.result {
        WaitLeaseResponseResult::Error { code, .. } => code.as_str(),
        _ => "",
    }
}

fn message(response: &WaitLeaseResponse) -> &str {
    match &response.result {
        WaitLeaseResponseResult::Error { message, .. } => message.as_str(),
        _ => "",
    }
}

fn refused(app: &mut App, request: &WaitLeaseRequest, clock: &Result<u64, String>) -> String {
    let effects = app.effects.len();
    let (response, changed) = app.apply_wait_lease_request(request, clock);
    assert!(!changed);
    assert_eq!(app.effects.len(), effects);
    assert_eq!(response.version, 1);
    assert_eq!(response.request_id, request.request_id);
    assert!(!message(&response).is_empty());
    code(&response).to_string()
}

#[test]
fn wait_lease_is_orthogonal_and_release_requires_its_owner_token() {
    let mut app = wait_lease_test_app();
    app.terminals.get_mut(TERMINAL).unwrap().state = AgentState::Working;
    let requested_at_ms = NOW_MS;
    let token = "a".repeat(64);

    let (acquired, changed) = app.apply_wait_lease_request(
        &acquire_request(PANE, TERMINAL, &token, requested_at_ms),
        &clock(),
    );

    assert!(changed);
    assert!(matches!(
        acquired.result,
        WaitLeaseResponseResult::Acquired { .. }
    ));
    let terminal = app.terminals.get(TERMINAL).unwrap();
    assert_eq!(terminal.state, AgentState::Working);
    assert_eq!(
        terminal.wait_lease.as_ref().map(|lease| lease.job_id()),
        Some("background-review")
    );

    let wrong_release = WaitLeaseRequest {
        version: 1,
        request_id: "wrong-release".into(),
        operation: WaitLeaseOperation::Release {
            pane_id: PANE.into(),
            terminal_id: TERMINAL.into(),
            terminal_generation: 0,
            job_id: "background-review".into(),
            token: "b".repeat(64),
        },
    };
    let (rejected, changed) = app.apply_wait_lease_request(&wrong_release, &clock());
    assert!(!changed);
    assert!(matches!(
        rejected.result,
        WaitLeaseResponseResult::Error { ref code, .. } if code == "wait_lease_token_mismatch"
    ));

    let owner_release = WaitLeaseRequest {
        version: 1,
        request_id: "owner-release".into(),
        operation: WaitLeaseOperation::Release {
            pane_id: PANE.into(),
            terminal_id: TERMINAL.into(),
            terminal_generation: 0,
            job_id: "background-review".into(),
            token,
        },
    };
    let (released, changed) = app.apply_wait_lease_request(&owner_release, &clock());
    assert!(changed);
    assert!(matches!(
        released.result,
        WaitLeaseResponseResult::Released { released: true }
    ));
    assert!(app.terminals.get(TERMINAL).unwrap().wait_lease.is_none());
}

#[test]
fn wait_lease_rejects_stale_pane_generation_and_expired_request() {
    let mut app = wait_lease_test_app();
    let now_ms = NOW_MS;
    let token = "c".repeat(64);
    let stale_generation = acquire_request(PANE, "term_stale", &token, now_ms);
    let (response, changed) = app.apply_wait_lease_request(&stale_generation, &clock());
    assert!(!changed);
    assert!(matches!(
        response.result,
        WaitLeaseResponseResult::Error { ref code, .. }
            if code == "wait_lease_pane_generation_changed"
    ));

    let expired = acquire_request(PANE, TERMINAL, &token, now_ms.saturating_sub(60_001));
    let (response, changed) = app.apply_wait_lease_request(&expired, &clock());
    assert!(!changed);
    assert!(matches!(
        response.result,
        WaitLeaseResponseResult::Error { ref code, .. } if code == "wait_lease_request_expired"
    ));

    app.terminals
        .get_mut(TERMINAL)
        .unwrap()
        .clear_wait_lease_runtime_identity();
    let stale_runtime = acquire_request(PANE, TERMINAL, &token, now_ms);
    let (response, changed) = app.apply_wait_lease_request(&stale_runtime, &clock());
    assert!(!changed);
    assert!(matches!(
        response.result,
        WaitLeaseResponseResult::Error { ref code, .. }
            if code == "wait_lease_pane_generation_changed"
    ));
}

#[test]
fn wait_lease_revocations_reject_old_and_preemptively_released_tokens() {
    let mut app = wait_lease_test_app();
    let now_ms = NOW_MS;
    let token_a = "a".repeat(64);
    let token_b = "b".repeat(64);
    let token_c = "c".repeat(64);

    let (_, changed) = app
        .apply_wait_lease_request(&acquire_request(PANE, TERMINAL, &token_a, now_ms), &clock());
    assert!(changed);
    let (_, changed) = app.apply_wait_lease_request(
        &release_request(PANE, TERMINAL, "background-review", &token_a),
        &clock(),
    );
    assert!(changed);

    let (_, changed) = app
        .apply_wait_lease_request(&acquire_request(PANE, TERMINAL, &token_b, now_ms), &clock());
    assert!(changed);
    let (_, changed) = app.apply_wait_lease_request(
        &release_request(PANE, TERMINAL, "background-review", &token_b),
        &clock(),
    );
    assert!(changed);

    let (replayed, changed) = app
        .apply_wait_lease_request(&acquire_request(PANE, TERMINAL, &token_a, now_ms), &clock());
    assert!(!changed);
    assert!(matches!(
        replayed.result,
        WaitLeaseResponseResult::Error { ref code, .. } if code == "wait_lease_token_revoked"
    ));

    let (released, changed) = app.apply_wait_lease_request(
        &release_request(PANE, TERMINAL, "background-review", &token_c),
        &clock(),
    );
    assert!(!changed);
    assert!(matches!(
        released.result,
        WaitLeaseResponseResult::Released { released: false }
    ));
    let (replayed, changed) = app
        .apply_wait_lease_request(&acquire_request(PANE, TERMINAL, &token_c, now_ms), &clock());
    assert!(!changed);
    assert!(matches!(
        replayed.result,
        WaitLeaseResponseResult::Error { ref code, .. } if code == "wait_lease_token_revoked"
    ));
}

#[test]
fn wait_lease_release_normalizes_job_id_and_reports_expiry_as_not_released() {
    let mut app = wait_lease_test_app();
    let now_ms = NOW_MS;
    let token = "d".repeat(64);

    let (_, changed) = app.apply_wait_lease_request(
        &acquire_request_for_job(PANE, TERMINAL, " background-review ", &token, now_ms),
        &clock(),
    );
    assert!(changed);
    let (released, changed) = app.apply_wait_lease_request(
        &release_request(PANE, TERMINAL, " background-review ", &token),
        &clock(),
    );
    assert!(changed);
    assert!(matches!(
        released.result,
        WaitLeaseResponseResult::Released { released: true }
    ));

    let expired_token = "e".repeat(64);
    app.terminals.get_mut(TERMINAL).unwrap().wait_lease = Some(WaitLease::new(
        "background-review".into(),
        expired_token.clone(),
        now_ms,
    ));
    assert!(app.expire_wait_leases(&clock()));
    let (released, changed) = app.apply_wait_lease_request(
        &release_request(PANE, TERMINAL, "background-review", &expired_token),
        &clock(),
    );
    assert!(!changed);
    assert!(matches!(
        released.result,
        WaitLeaseResponseResult::Released { released: false }
    ));
}

#[test]
fn unacknowledged_wait_lease_acquire_is_rolled_back_and_revoked() {
    let mut app = wait_lease_test_app();
    let now_ms = NOW_MS;
    let token = "f".repeat(64);
    let request = acquire_request(PANE, TERMINAL, &token, now_ms);

    let (_, changed) = app.apply_wait_lease_request(&request, &clock());
    assert!(changed);
    assert!(app.rollback_unacknowledged_wait_lease_acquire(&request, &clock()));

    let (replayed, changed) = app.apply_wait_lease_request(&request, &clock());
    assert!(!changed);
    assert!(matches!(
        replayed.result,
        WaitLeaseResponseResult::Error { ref code, .. } if code == "wait_lease_token_revoked"
    ));
}

#[test]
fn wait_lease_release_fires_deferred_completion_through_wire_protocol() {
    let mut app = wait_lease_test_app();
    app.terminals.get_mut(TERMINAL).unwrap().state = AgentState::Working;
    let now_ms = NOW_MS;
    let token = "9".repeat(64);

    let (_, changed) = app
        .apply_wait_lease_request(&acquire_request(PANE, TERMINAL, &token, now_ms), &clock());
    assert!(changed);
    assert_eq!(
        app.effects,
        vec![Effect::PaneUpdated {
            workspace_index: 1,
            pane_id: 7,
        }]
    );

    // The agent comes to rest while the lease is held.
    app.terminals.get_mut(TERMINAL).unwrap().state = AgentState::Idle;
    assert_eq!(
        app.effects.len(),
        1,
        "must be suppressed while the lease is held"
    );

    let (released, changed) = app.apply_wait_lease_request(
        &release_request(PANE, TERMINAL, "background-review", &token),
        &clock(),
    );
    assert!(changed);
    assert!(matches!(
        released.result,
        WaitLeaseResponseResult::Released { released: true }
    ));
    assert_eq!(
        app.effects[1..],
        [
            Effect::RecomputeAgentState {
                workspace_index: 1,
                pane_id: 7,
            },
            Effect::PaneUpdated {
                workspace_index: 1,
                pane_id: 7,
            },
        ],
        "releasing the lease through the wire protocol must fire the owed completion"
    );
    assert_eq!(app.terminals.get(TERMINAL).unwrap().revision, 2);
    assert_eq!(app.terminals.get("term_0").unwrap().revision, 0);
}

#[test]
fn granted_lease_runs_from_the_moment_of_the_request() {
    let mut app = wait_lease_test_app();
    let token = "a".repeat(64);

    let (acquired, changed) = app.apply_wait_lease_request(
        &acquire_request(PANE, TERMINAL, &token, NOW_MS - 1_000),
        &clock(),
    );
    assert!(changed);
    assert_eq!(acquired.version, 1);
    assert_eq!(acquired.request_id, "acquire-request");
    assert_eq!(
        acquired.result,
        WaitLeaseResponseResult::Acquired {
            job_id: "background-review".into(),
            remaining_ms: 59_000,
            token: token.clone(),
        }
    );
    let lease = app.terminals.get(TERMINAL).unwrap().wait_lease.as_ref().unwrap();
    assert_eq!(lease.expires_at_ms(), NOW_MS + 59_000);
    assert_eq!(lease.token(), token);
}

#[test]
fn asking_again_gives_the_same_lease() {
    let mut app = wait_lease_test_app();
    let token = "a".repeat(64);
    let request = acquire_request(PANE, TERMINAL, &token, NOW_MS);
    app.apply_wait_lease_request(&request, &clock());

    let (again, changed) = app.apply_wait_lease_request(&request, &Ok(NOW_MS + 10_000));
    assert!(!changed);
    assert_eq!(
        again.result,
        WaitLeaseResponseResult::Acquired {
            job_id: "background-review".into(),
            remaining_ms: 50_000,
            token,
        }
    );
    assert_eq!(app.effects.len(), 1);
    assert_eq!(app.terminals.get(TERMINAL).unwrap().revision, 1);
}

#[test]
fn running_lease_keeps_others_out_until_it_runs_out() {
    let mut app = wait_lease_test_app();
    app.apply_wait_lease_request(
        &acquire_request(PANE, TERMINAL, &"a".repeat(64), NOW_MS),
        &clock(),
    );
    let other = acquire_request(PANE, TERMINAL, &"b".repeat(64), NOW_MS + 59_999);
    assert_eq!(
        refused(&mut app, &other, &Ok(NOW_MS + 59_999)),
        "wait_lease_active"
    );
    let same_token_other_job =
        acquire_request_for_job(PANE, TERMINAL, "other-job", &"a".repeat(64), NOW_MS);
    assert_eq!(
        refused(&mut app, &same_token_other_job, &clock()),
        "wait_lease_active"
    );

    let (_, changed) = app.apply_wait_lease_request(&other, &Ok(NOW_MS + 60_000));
    assert!(changed);
    assert_eq!(
        app.terminals.get(TERMINAL).unwrap().wait_lease.as_ref().map(|lease| lease.token()),
        Some("b".repeat(64).as_str())
    );
}

#[test]
fn release_of_a_lease_that_has_run_out_says_so() {
    let mut app = wait_lease_test_app();
    let token = "a".repeat(64);
    app.apply_wait_lease_request(&acquire_request(PANE, TERMINAL, &token, NOW_MS), &clock());

    let release = release_request(PANE, TERMINAL, "background-review", &token);
    let (released, changed) = app.apply_wait_lease_request(&release, &Ok(NOW_MS + 60_000));
    assert!(changed);
    assert_eq!(
        released.result,
        WaitLeaseResponseResult::Released { released: false }
    );
}

#[test]
fn release_is_answered_the_same_again() {
    let mut app = wait_lease_test_app();
    let token = "a".repeat(64);
    app.apply_wait_lease_request(&acquire_request(PANE, TERMINAL, &token, NOW_MS), &clock());
    let release = release_request(PANE, TERMINAL, "background-review", &token);
    app.apply_wait_lease_request(&release, &clock());

    let (again, changed) = app.apply_wait_lease_request(&release, &clock());
    assert!(!changed);
    assert_eq!(
        again.result,
        WaitLeaseResponseResult::Released { released: true }
    );
}

#[test]
fn replayed_request_stays_refused() {
    let mut app = wait_lease_test_app();
    let token = "a".repeat(64);
    let request = acquire_with(0, "job", MAX_WAIT_LEASE_TTL_MS, &token, NOW_MS);
    app.apply_wait_lease_request(&request, &clock());
    let (released, _) = app.apply_wait_lease_request(
        &release_request(PANE, TERMINAL, "job", &token),
        &Ok(NOW_MS + 1),
    );
    assert_eq!(
        released.result,
        WaitLeaseResponseResult::Released { released: true }
    );
    let expiry = NOW_MS + MAX_WAIT_LEASE_TTL_MS;
    for at in [NOW_MS + 1, expiry - 1] {
        assert_eq!(
            refused(&mut app, &request, &Ok(at)),
            "wait_lease_token_revoked"
        );
    }
    for at in [expiry, expiry + 1, u64::MAX] {
        assert_eq!(
            refused(&mut app, &request, &Ok(at)),
            "wait_lease_request_expired"
        );
    }
}

#[test]
fn release_answers_outlast_the_releases_of_others() {
    let mut app = app_with_capacity(2);
    let token = "a".repeat(64);
    app.apply_wait_lease_request(&acquire_request(PANE, TERMINAL, &token, NOW_MS), &clock());
    let release = release_request(PANE, TERMINAL, "background-review", &token);
    app.apply_wait_lease_request(&release, &clock());
    for other in ["b", "c", "d"] {
        app.apply_wait_lease_request(
            &release_request(PANE, TERMINAL, "background-review", &other.repeat(64)),
            &clock(),
        );
    }
    let (again, _) = app.apply_wait_lease_request(&release, &Ok(NOW_MS + 5_000));
    assert_eq!(
        again.result,
        WaitLeaseResponseResult::Released { released: true }
    );
}

#[test]
fn every_refusal_has_its_code() {
    let token = "a".repeat(64);
    let good = acquire_request(PANE, TERMINAL, &token, NOW_MS);
    let mut app = wait_lease_test_app();

    let version = WaitLeaseRequest {
        version: 2,
        ..good.clone()
    };
    assert_eq!(
        refused(&mut app, &version, &clock()),
        "unsupported_wait_lease_version"
    );
    assert_eq!(
        refused(&mut app, &acquire_request("nowhere", TERMINAL, &token, NOW_MS), &clock()),
        "pane_not_found"
    );
    assert_eq!(
        refused(&mut app, &acquire_request(PANE, "term_0", &token, NOW_MS), &clock()),
        "wait_lease_pane_generation_changed"
    );
    assert_eq!(
        refused(&mut app, &acquire_with(1, "job", 1, &token, NOW_MS), &clock()),
        "wait_lease_pane_generation_changed"
    );
    assert_eq!(
        refused(&mut app, &acquire_with(0, " \t\n", 1, &token, NOW_MS), &clock()),
        "invalid_wait_lease_job_id"
    );
    assert_eq!(
        refused(&mut app, &acquire_with(0, &"j".repeat(129), 1, &token, NOW_MS), &clock()),
        "invalid_wait_lease_job_id"
    );
    // Bytes count, not characters.
    assert_eq!(
        refused(&mut app, &acquire_with(0, &"\u{e9}".repeat(65), 1, &token, NOW_MS), &clock()),
        "invalid_wait_lease_job_id"
    );
    assert_eq!(
        refused(&mut app, &acquire_with(0, "job", 0, &token, NOW_MS), &clock()),
        "invalid_wait_lease_ttl"
    );
    assert_eq!(
        refused(
            &mut app,
            &acquire_with(0, "job", MAX_WAIT_LEASE_TTL_MS + 1, &token, NOW_MS),
            &clock()
        ),
        "invalid_wait_lease_ttl"
    );
    assert_eq!(
        refused(&mut app, &acquire_with(0, "job", 1, &"a".repeat(63), NOW_MS), &clock()),
        "invalid_wait_lease_token"
    );
    assert_eq!(
        refused(&mut app, &acquire_with(0, "job", 1, &"g".repeat(64), NOW_MS), &clock()),
        "invalid_wait_lease_token"
    );
    let no_clock: Result<u64, String> = Err("no clock here".into());
    assert_eq!(
        refused(&mut app, &good, &no_clock),
        "wait_lease_clock_unavailable"
    );
    let (response, _) = app.apply_wait_lease_request(&good, &no_clock);
    assert_eq!(message(&response), "no clock here");
    assert_eq!(
        refused(&mut app, &acquire_with(0, "job", 1, &token, NOW_MS + 1), &clock()),
        "wait_lease_clock_unverifiable"
    );
    let overflow = acquire_with(0, "job", 2, &token, u64::MAX - 1);
    assert_eq!(
        refused(&mut app, &overflow, &Ok(u64::MAX)),
        "invalid_wait_lease_ttl"
    );
    let (response, _) = app.apply_wait_lease_request(&overflow, &Ok(u64::MAX));
    assert_eq!(
        message(&response),
        "wait lease expiry overflowed the continuous clock"
    );
    assert_eq!(
        refused(&mut app, &acquire_with(0, "job", 5, &token, NOW_MS - 5), &clock()),
        "wait_lease_request_expired"
    );

    // After all that, the good request is still granted.
    let (response, changed) = app.apply_wait_lease_request(&good, &clock());
    assert!(changed);
    assert_eq!(code(&response), "");
}

#[test]
fn every_refused_release_has_its_code() {
    let token = "a".repeat(64);
    let mut app = wait_lease_test_app();
    assert_eq!(
        refused(&mut app, &release_request("nowhere", TERMINAL, "job", &token), &clock()),
        "pane_not_found"
    );
    let stale = release_request(PANE, "term_stale", "job", &token);
    assert_eq!(
        refused(&mut app, &stale, &clock()),
        "wait_lease_pane_generation_changed"
    );
    let (response, _) = app.apply_wait_lease_request(&stale, &clock());
    assert_eq!(
        message(&response),
        "pane generation changed before the lease was released"
    );
    assert_eq!(
        refused(
            &mut app,
            &release_request(PANE, TERMINAL, "job", &token),
            &Err("no clock here".into())
        ),
        "wait_lease_clock_unavailable"
    );
    assert_eq!(
        refused(&mut app, &release_request(PANE, TERMINAL, "  ", &token), &clock()),
        "invalid_wait_lease_job_id"
    );
    assert_eq!(
        refused(&mut app, &release_request(PANE, TERMINAL, "job", "short"), &clock()),
        "invalid_wait_lease_token"
    );
    app.terminals
        .get_mut(TERMINAL)
        .unwrap()
        .clear_wait_lease_runtime_identity();
    assert_eq!(
        refused(&mut app, &release_request(PANE, TERMINAL, "job", &token), &clock()),
        "wait_lease_pane_generation_changed"
    );
}

#[test]
fn longest_job_id_and_ttl_are_granted() {
    let mut app = wait_lease_test_app();
    let job = "j".repeat(128);
    let (response, changed) = app.apply_wait_lease_request(
        &acquire_with(0, &job, MAX_WAIT_LEASE_TTL_MS, &"A".repeat(64), NOW_MS),
        &clock(),
    );
    assert!(changed);
    assert_eq!(
        response.result,
        WaitLeaseResponseResult::Acquired {
            job_id: job,
            remaining_ms: MAX_WAIT_LEASE_TTL_MS,
            token: "A".repeat(64),
        }
    );
}

#[test]
fn full_record_of_revocations_keeps_every_token_out() {
    let mut app = app_with_capacity(1);
    app.apply_wait_lease_request(
        &release_request(PANE, TERMINAL, "job", &"a".repeat(64)),
        &clock(),
    );
    assert_eq!(
        refused(
            &mut app,
            &acquire_request(PANE, TERMINAL, &"b".repeat(64), NOW_MS),
            &clock()
        ),
        "wait_lease_replay_guard_saturated"
    );
    let later = NOW_MS + MAX_WAIT_LEASE_TTL_MS;
    let (_, changed) = app.apply_wait_lease_request(
        &acquire_request(PANE, TERMINAL, &"b".repeat(64), later),
        &Ok(later),
    );
    assert!(changed);
}

#[test]
fn token_that_no_longer_fits_on_record_blocks_all_acquires() {
    let mut revocations = WaitLeaseRevocations::with_capacity(1);
    revocations.record("a".into(), 100, true, 0);
    revocations.record("b".into(), 200, false, 0);
    assert!(revocations.token_is_revoked("a", 50));
    assert!(revocations.acquire_guard_saturated(50));
    // The first token has run out, but the second is still not let in.
    assert!(revocations.acquire_guard_saturated(150));
    assert!(!revocations.acquire_guard_saturated(200));
}

#[test]
fn record_of_a_token_lasts_until_its_moment() {
    let mut revocations = WaitLeaseRevocations::with_capacity(4);
    revocations.record("a".into(), 100, true, 0);
    revocations.record("b".into(), 100, false, 0);
    assert_eq!(revocations.prior_release_result("a", 99), Some(true));
    assert_eq!(revocations.prior_release_result("b", 99), Some(false));
    assert_eq!(revocations.prior_release_result("c", 99), None);
    assert!(revocations.token_is_revoked("a", 99));
    assert!(!revocations.token_is_revoked("a", 100));
    assert_eq!(revocations.prior_release_result("a", 100), None);
    assert!(!revocations.acquire_guard_saturated(0));
}

#[test]
fn expiry_drops_the_leases_that_have_run_out_and_no_others() {
    let mut app = wait_lease_test_app();
    app.terminals.get_mut("term_0").unwrap().wait_lease =
        Some(WaitLease::new("job".into(), "a".repeat(64), NOW_MS + 1));
    app.terminals.get_mut(TERMINAL).unwrap().wait_lease =
        Some(WaitLease::new("job".into(), "b".repeat(64), NOW_MS));

    assert!(!app.expire_wait_leases(&Err("no clock here".into())));
    assert!(app.effects.is_empty());
    assert!(app.expire_wait_leases(&clock()));
    assert!(app.terminals.get("term_0").unwrap().wait_lease.is_some());
    assert!(app.terminals.get(TERMINAL).unwrap().wait_lease.is_none());
    assert_eq!(
        app.effects,
        vec![
            Effect::RecomputeAgentState {
                workspace_index: 1,
                pane_id: 7,
            },
            Effect::PaneUpdated {
                workspace_index: 1,
                pane_id: 7,
            },
        ]
    );
    assert!(!app.expire_wait_leases(&clock()));
}

#[test]
fn rollback_touches_only_the_lease_of_its_request() {
    let mut app = wait_lease_test_app();
    let request = acquire_request(PANE, TERMINAL, &"a".repeat(64), NOW_MS);
    let other = acquire_request(PANE, TERMINAL, &"b".repeat(64), NOW_MS);
    app.apply_wait_lease_request(&request, &clock());
    assert!(!app.rollback_unacknowledged_wait_lease_acquire(&other, &clock()));
    assert!(!app.rollback_unacknowledged_wait_lease_acquire(
        &release_request(PANE, TERMINAL, "background-review", &"a".repeat(64)),
        &clock()
    ));
    assert!(!app
        .rollback_unacknowledged_wait_lease_acquire(&request, &Err("no clock here".into())));
    assert!(app.terminals.get(TERMINAL).unwrap().wait_lease.is_some());
    assert!(app.rollback_unacknowledged_wait_lease_acquire(&request, &clock()));
    assert!(app.terminals.get(TERMINAL).unwrap().wait_lease.is_none());
    assert!(!app.rollback_unacknowledged_wait_lease_acquire(&request, &clock()));
}

#[test]
fn round_answers_every_request_in_turn() {
    let mut app = wait_lease_test_app();
    let lost = acquire_request(PANE, TERMINAL, &"a".repeat(64), NOW_MS);
    let mut sync = WaitLeaseSync::new(vec![
        lost.clone(),
        acquire_request(PANE, TERMINAL, &"b".repeat(64), NOW_MS),
        lost,
    ]);

    let first = app.answer_next_wait_lease_request(&mut sync, &clock()).unwrap();
    assert_eq!(code(&first), "");
    // The answer is lost, so the lease is free again.
    app.settle_wait_lease_request(&mut sync, false, &clock());
    assert!(app.terminals.get(TERMINAL).unwrap().wait_lease.is_none());

    let second = app.answer_next_wait_lease_request(&mut sync, &clock()).unwrap();
    assert_eq!(code(&second), "");
    app.settle_wait_lease_request(&mut sync, true, &clock());

    let third = app.answer_next_wait_lease_request(&mut sync, &clock()).unwrap();
    assert_eq!(code(&third), "wait_lease_token_revoked");
    // What changed nothing is not taken back.
    app.settle_wait_lease_request(&mut sync, false, &clock());

    assert!(app.answer_next_wait_lease_request(&mut sync, &clock()).is_none());
    assert!(sync.changed);
    assert_eq!(sync.done, 3);
    assert_eq!(
        app.terminals.get(TERMINAL).unwrap().wait_lease.as_ref().map(|lease| lease.token()),
        Some("b".repeat(64).as_str())
    );
}

#[test]
fn round_of_refusals_changes_nothing() {
    let mut app = wait_lease_test_app();
    let mut sync = WaitLeaseSync::new(vec![acquire_request(
        "nowhere",
        TERMINAL,
        &"a".repeat(64),
        NOW_MS,
    )]);
    app.answer_next_wait_lease_request(&mut sync, &clock());
    app.settle_wait_lease_request(&mut sync, false, &clock());
    assert!(!sync.changed);
    assert!(app.effects.is_empty());
}

#[test]
fn error_answer_carries_its_code_and_changes_nothing() {
    let (response, changed) =
        wait_lease_error("id".into(), "some_code".into(), "some message".into());
    assert!(!changed);
    assert_eq!(
        response,
        WaitLeaseResponse {
            version: 1,
            request_id: "id".into(),
            result: WaitLeaseResponseResult::Error {
                code: "some_code".into(),
                message: "some message".into(),
            },
        }
    );
}

#[test]
fn panes_are_found_by_their_public_names() {
    let app = wait_lease_test_app();
    assert_eq!(app.layout.parse_pane_id(PANE), Some((1, 7)));
    assert_eq!(app.layout.parse_pane_id("w9"), None);
    assert_eq!(app.layout.public_pane_id(1, 7), Some(PANE.to_string()));
    assert_eq!(app.layout.public_pane_id(0, 7), None);
    assert_eq!(app.layout.workspaces[1].pane_state(7).unwrap().attached_terminal_id, TERMINAL);
    assert!(app.layout.workspaces[0].pane_state(7).is_none());
}

#[test]
fn a_pane_is_at_work_when_its_terminal_is() {
    let mut app = wait_lease_test_app();
    assert!(!app.layout.has_working_pane(&app.terminals));
    app.terminals.get_mut(TERMINAL).unwrap().state = AgentState::Working;
    assert!(app.layout.has_working_pane(&app.terminals));
    app.layout.workspaces.pop();
    assert!(!app.layout.has_working_pane(&app.terminals));
}
