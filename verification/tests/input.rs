use herdr::api::{ApiMethod, ApiRun, ApiStep};
use herdr::app::App;
use herdr::events::EventDrain;
use herdr::input::{InputAction, InputChange, InputContext, InputEvent, KeyKind};
use herdr::layout::Layout;
use herdr::names::NameSet;
use herdr::runtimes::{retain_custom_command_after_wait, WaitFailure};
use herdr::schedule::{GitRefresh, Intervals, Schedule};
use herdr::selection::SelectionState;
use herdr::terminal::TerminalTable;

const PROGRAM: InputContext = InputContext {
    popup_open: false,
    terminal_mode: false,
    mouse_capture: false,
    redraw_on_focus_gained: false,
};

const TERMINAL: InputContext = InputContext {
    terminal_mode: true,
    ..PROGRAM
};

const POPUP: InputContext = InputContext {
    popup_open: true,
    ..PROGRAM
};

fn app() -> App {
    App {
        layout: Layout {
            workspaces: Vec::new(),
            public_panes: Vec::new(),
        },
        terminals: TerminalTable::new(),
        schedule: Schedule {
            intervals: Intervals {
                animation: 100,
                headless_animation: 500,
                min_render: 16,
                resize_poll: 200,
                selection_autoscroll: 50,
                auto_update_check: 10_000,
                git_refresh: 5_000,
            },
            next_wait_lease_poll: 0,
            next_resize_poll: 0,
            config_diagnostic_deadline: None,
            toast_deadline: None,
            pending_agent_notification_deadline: None,
            managed_agent_deadline: None,
            copy_feedback_deadline: None,
            next_animation_tick: None,
            next_auto_update_check: None,
            next_agent_manifest_update_check: None,
            agent_metadata_deadline: None,
            pending_agent_resume_deadline: None,
            session_save_deadline: None,
            last_render_at: None,
            git: GitRefresh {
                in_flight: false,
                due_after_in_flight: false,
                last_refresh: 0,
            },
            config_diagnostic_shown: false,
            toast_shown: false,
            copy_feedback_shown: false,
            spinner_tick: 0,
            last_terminal_size: None,
            update_available: false,
        },
        selection: SelectionState {
            selection: None,
            selection_autoscroll: None,
            selection_autoscroll_deadline: None,
            selection_highlight_clear_deadline: None,
        },
        suppressed_repeat_keys: NameSet::new(),
        terminal_runtimes: NameSet::new(),
        terminal_runtime_shutdowns: Vec::new(),
        effects: Vec::new(),
    }
}

fn key(id: &str, kind: KeyKind) -> InputEvent {
    InputEvent::Key {
        id: id.into(),
        kind,
    }
}

/// What is done with the input, without what is done after every piece of it.
fn handled(app: &mut App, event: &InputEvent, context: InputContext) -> Vec<InputAction> {
    let mut actions = app.handle_raw_input_event(event, context).actions;
    assert_eq!(actions.pop(), Some(InputAction::ShutDownDetachedTerminals));
    assert_eq!(actions.pop(), Some(InputAction::SyncPrefixInputSource));
    actions
}

#[test]
fn interrupted_custom_command_wait_keeps_child_for_retry() {
    assert!(retain_custom_command_after_wait(&Err(
        WaitFailure::Interrupted
    )));
}

#[test]
fn finished_and_lost_custom_commands_are_let_go() {
    assert!(retain_custom_command_after_wait(&Ok(None)));
    assert!(!retain_custom_command_after_wait(&Ok(Some(0))));
    assert!(!retain_custom_command_after_wait(&Ok(Some(1))));
    assert!(!retain_custom_command_after_wait(&Err(WaitFailure::Other)));
}

#[test]
fn key_that_opened_the_terminal_does_not_repeat_into_it() {
    let mut app = app();
    assert_eq!(
        handled(&mut app, &key("enter", KeyKind::Press), PROGRAM),
        vec![InputAction::HandleKey]
    );
    assert!(handled(&mut app, &key("enter", KeyKind::Repeat), PROGRAM).is_empty());
    assert!(handled(&mut app, &key("enter", KeyKind::Repeat), TERMINAL).is_empty());
    assert!(handled(&mut app, &key("enter", KeyKind::Repeat), POPUP).is_empty());
    // Other keys are another matter.
    assert_eq!(
        handled(&mut app, &key("a", KeyKind::Repeat), TERMINAL),
        vec![InputAction::HandleKey]
    );
    assert!(handled(&mut app, &key("enter", KeyKind::Release), TERMINAL).is_empty());
    assert_eq!(
        handled(&mut app, &key("enter", KeyKind::Repeat), TERMINAL),
        vec![InputAction::HandleKey]
    );
}

#[test]
fn key_pressed_in_the_terminal_repeats_into_it() {
    let mut app = app();
    handled(&mut app, &key("x", KeyKind::Press), PROGRAM);
    handled(&mut app, &key("x", KeyKind::Press), TERMINAL);
    assert!(!app.suppressed_repeat_keys.contains("x"));
    assert_eq!(
        handled(&mut app, &key("x", KeyKind::Repeat), TERMINAL),
        vec![InputAction::HandleKey]
    );
    assert!(handled(&mut app, &key("x", KeyKind::Repeat), PROGRAM).is_empty());
}

#[test]
fn keys_change_what_shows_only_when_they_are_handled() {
    let mut app = app();
    let press = app.handle_raw_input_event(&key("x", KeyKind::Press), PROGRAM);
    assert_eq!(press.changed, InputChange::Yes);
    let repeat = app.handle_raw_input_event(&key("x", KeyKind::Repeat), TERMINAL);
    assert_eq!(repeat.changed, InputChange::No);
    let release = app.handle_raw_input_event(&key("x", KeyKind::Release), TERMINAL);
    assert_eq!(release.changed, InputChange::No);
    let unsupported = app.handle_raw_input_event(&InputEvent::Unsupported, TERMINAL);
    assert_eq!(unsupported.changed, InputChange::No);
    assert_eq!(
        unsupported.actions,
        vec![
            InputAction::SyncPrefixInputSource,
            InputAction::ShutDownDetachedTerminals,
        ]
    );
}

#[test]
fn mouse_goes_to_the_pane_unless_it_is_captured() {
    let mut app = app();
    let captured = InputContext {
        mouse_capture: true,
        ..TERMINAL
    };
    assert_eq!(
        handled(&mut app, &InputEvent::Mouse, TERMINAL),
        vec![InputAction::HandlePaneMouse]
    );
    assert_eq!(
        handled(&mut app, &InputEvent::Mouse, captured),
        vec![InputAction::HandleMouse]
    );
    assert_eq!(
        handled(&mut app, &InputEvent::Mouse, POPUP),
        vec![InputAction::HandleMouse]
    );
    assert_eq!(
        handled(&mut app, &InputEvent::Paste, PROGRAM),
        vec![InputAction::HandlePaste]
    );
}

#[test]
fn focus_is_passed_on_before_it_is_noted() {
    let mut app = app();
    let redraw = InputContext {
        redraw_on_focus_gained: true,
        ..PROGRAM
    };
    assert_eq!(
        handled(&mut app, &InputEvent::OuterFocusGained, redraw),
        vec![
            InputAction::SendOuterFocus { gained: true },
            InputAction::RequestFullRedraw,
            InputAction::NoteOuterFocus { focused: true },
            InputAction::MarkActiveTabSeen,
        ]
    );
    assert_eq!(
        handled(&mut app, &InputEvent::OuterFocusGained, PROGRAM).len(),
        3
    );
    let lost = app.handle_raw_input_event(&InputEvent::OuterFocusLost, redraw);
    assert_eq!(lost.changed, InputChange::No);
    assert_eq!(
        lost.actions[..2],
        [
            InputAction::SendOuterFocus { gained: false },
            InputAction::NoteOuterFocus { focused: false },
        ]
    );
}

#[test]
fn colors_of_the_host_lead_to_nothing_but_a_new_theme() {
    let mut app = app();
    let color = app.handle_raw_input_event(&InputEvent::HostDefaultColor, TERMINAL);
    assert_eq!(color.changed, InputChange::AsHandled);
    assert_eq!(
        color.actions,
        vec![
            InputAction::UpdateHostTheme,
            InputAction::SyncPrefixInputSource,
            InputAction::ShutDownDetachedTerminals,
        ]
    );
    let scheme = app.handle_raw_input_event(&InputEvent::HostColorSchemeChanged, TERMINAL);
    assert_eq!(scheme.changed, InputChange::AsHandled);
    assert_eq!(
        scheme.actions[..2],
        [
            InputAction::QueryHostTheme,
            InputAction::SetHostAppearance,
        ]
    );
}

#[test]
fn detached_terminals_are_shut_down_once() {
    let mut app = app();
    for id in ["a", "b", "c"] {
        app.terminal_runtimes.insert(id.into());
    }
    app.terminal_runtime_shutdowns = vec!["c".into(), "x".into(), "a".into(), "c".into()];
    assert_eq!(
        app.shutdown_detached_terminal_runtimes(),
        vec!["c".to_string(), "a".to_string()]
    );
    assert!(app.terminal_runtime_shutdowns.is_empty());
    assert!(app.terminal_runtimes.contains("b"));
    assert!(!app.terminal_runtimes.contains("a"));
    assert!(app.shutdown_detached_terminal_runtimes().is_empty());
}

#[test]
fn set_of_names_holds_each_name_once() {
    let mut set = NameSet::new();
    assert!(!set.contains("a"));
    assert!(set.insert("a".into()));
    assert!(!set.insert("a".into()));
    assert!(set.insert("b".into()));
    assert!(set.remove("a"));
    assert!(!set.remove("a"));
    assert!(!set.contains("a"));
    assert!(set.contains("b"));
}

fn steps(method: ApiMethod) -> Vec<ApiStep> {
    ApiRun::handle_api_request_message(method).steps
}

#[test]
fn request_is_answered_after_a_workspace_is_open() {
    assert_eq!(
        steps(ApiMethod::Other),
        vec![
            ApiStep::ExpireMetadata,
            ApiStep::RequestChangesUi,
            ApiStep::HandleRequest,
            ApiStep::EnsureDefaultWorkspace,
            ApiStep::Respond,
            ApiStep::SyncPrefixInputSource,
        ]
    );
}

#[test]
fn server_that_ends_opens_no_workspace() {
    for method in [ApiMethod::ServerStop, ApiMethod::ServerLiveHandoff] {
        assert_eq!(
            steps(method),
            vec![
                ApiStep::ExpireMetadata,
                ApiStep::RequestChangesUi,
                ApiStep::HandleRequest,
                ApiStep::Respond,
                ApiStep::SyncPrefixInputSource,
            ]
        );
    }
}

#[test]
fn worktree_requests_come_after_all_events() {
    for method in [ApiMethod::WorktreeCreate, ApiMethod::WorktreeRemove] {
        assert_eq!(
            steps(method),
            vec![
                ApiStep::ExpireMetadata,
                ApiStep::RequestChangesUi,
                ApiStep::DrainInternalEvents,
                ApiStep::HandleDeferredWorktree,
                ApiStep::EnsureDefaultWorkspace,
                ApiStep::SyncPrefixInputSource,
            ]
        );
    }
}

#[test]
fn only_some_steps_tell_of_a_change() {
    let mut run = ApiRun::handle_api_request_message(ApiMethod::WorktreeCreate);
    while let Some(step) = run.next_step() {
        run.step_done(matches!(
            step,
            ApiStep::DrainInternalEvents | ApiStep::SyncPrefixInputSource
        ));
    }
    assert!(!run.changed);

    let mut run = ApiRun::handle_api_request_message(ApiMethod::WorktreeCreate);
    while let Some(step) = run.next_step() {
        run.step_done(step == ApiStep::HandleDeferredWorktree);
    }
    assert!(run.changed);
    assert_eq!(run.next_step(), None);
}

/// Drains a queue in which a number of events wait. Gives how many were taken.
fn drained(limit: usize, waiting: &mut usize) -> usize {
    let mut drain = EventDrain::drain_internal_events_up_to(limit);
    while drain.wants_event() {
        let got = *waiting > 0;
        drain.event_received(got);
        if got {
            *waiting -= 1;
        }
    }
    assert_eq!(drain.had_event(), drain.taken > 0);
    drain.taken
}

#[test]
fn events_are_taken_up_to_the_limit() {
    let mut waiting = 5;
    assert_eq!(drained(3, &mut waiting), 3);
    assert_eq!(drained(3, &mut waiting), 2);
    assert_eq!(drained(3, &mut waiting), 0);
    assert_eq!(waiting, 0);
    waiting = 1;
    assert_eq!(drained(0, &mut waiting), 0);
    assert_eq!(waiting, 1);
}
