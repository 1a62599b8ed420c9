use herdr::app::{App, Effect, PaneRef};
use herdr::git_refresh::WorkspaceGitRefreshItem;
use herdr::layout::{Layout, PaneState, Tab, Workspace};
use herdr::names::NameSet;
use herdr::schedule::{
    due, earliest, GitRefresh, Intervals, Schedule, TerminalSize, WAIT_LEASE_POLL_INTERVAL_NS,
};
use herdr::selection::{Selection, SelectionPhase, SelectionState};
use herdr::tasks::Task;
use herdr::terminal::{AgentState, TerminalState, TerminalTable};
use herdr::wait_lease::WaitLease;

const NOW: u64 = 1_000_000;
const LATER: u64 = 9_000_000;
const TERMINAL: &str = "term_0";

/// A program with one workspace of one pane, in which nothing is due at `NOW`.
fn app() -> App {
    let mut terminals = TerminalTable::new();
    terminals.insert(TERMINAL.into(), TerminalState::new(AgentState::Idle, 8));
    App {
        layout: Layout {
            workspaces: vec![Workspace {
                id: "test".into(),
                tabs: vec![Tab {
                    panes: vec![PaneState {
                        pane_id: 2,
                        attached_terminal_id: TERMINAL.into(),
                    }],
                }],
            }],
            public_panes: Vec::new(),
        },
        terminals,
        schedule: Schedule {
            intervals: Intervals {
                animation: 100,
                headless_animation: 500,
                min_render: 16,
                resize_poll: 200,
                selection_autoscroll: 50,
                auto_update_check: 10_000,
                git_refresh: 5_000,
            },
            next_wait_lease_poll: LATER,
            next_resize_poll: LATER,
            config_diagnostic_deadline: None,
            toast_deadline: None,
            pending_agent_notification_deadline: None,
            managed_agent_deadline: None,
            copy_feedback_deadline: None,
            next_animation_tick: None,
            next_auto_update_check: None,
            next_agent_manifest_update_check: None,
            agent_metadata_deadline: None,
            pending_agent_resume_deadline: None,
            session_save_deadline: None,
            last_render_at: None,
            git: GitRefresh {
                in_flight: false,
                due_after_in_flight: false,
                last_refresh: NOW,
            },
            config_diagnostic_shown: false,
            toast_shown: false,
            copy_feedback_shown: false,
            spinner_tick: 0,
            last_terminal_size: None,
            update_available: false,
        },
        selection: SelectionState {
            selection: None,
            selection_autoscroll: None,
            selection_autoscroll_deadline: None,
            selection_highlight_clear_deadline: None,
        },
        suppressed_repeat_keys: NameSet::new(),
        terminal_runtimes: NameSet::new(),
        terminal_runtime_shutdowns: Vec::new(),
        effects: Vec::new(),
    }
}

fn item(workspace_id: &str) -> WorkspaceGitRefreshItem {
    WorkspaceGitRefreshItem {
        workspace_id: workspace_id.into(),
        resolved_identity_cwd: b"/repo".to_vec(),
        cache_key: b"/repo".to_vec(),
    }
}

#[test]
fn headless_deadline_can_suppress_git_refresh_timer() {
    let mut app = app();
    let now = NOW;
    app.schedule.git.last_refresh = now - app.schedule.intervals.git_refresh;
    app.schedule.next_wait_lease_poll = now + 5_000_000_000;

    assert_eq!(
        app.next_headless_loop_deadline_with_git_refresh(now, false, false),
        Some(app.schedule.next_wait_lease_poll)
    );
    assert_eq!(
        app.next_headless_loop_deadline_with_git_refresh(now, false, true),
        Some(now)
    );
}

#[test]
fn git_refresh_due_request_survives_in_flight_refresh() {
    let mut app = app();
    app.layout.workspaces.clear();
    let now = NOW;
    app.schedule.git.in_flight = true;

    app.mark_git_status_refresh_due(now);
    assert!(app.schedule.git.due_after_in_flight);

    app.git_status_refreshed(now);

    assert!(!app.schedule.git.in_flight);
    assert!(!app.schedule.git.due_after_in_flight);
    assert_eq!(app.git_refresh_deadline(), None);

    app.layout.workspaces.push(Workspace {
        id: "test".into(),
        tabs: Vec::new(),
    });
    let deadline = app
        .git_refresh_deadline()
        .expect("refresh should be due once a workspace exists");
    assert!(deadline <= now);
}

#[test]
fn scheduled_tasks_do_not_start_pending_agent_resume_when_geometry_dirty() {
    let mut app = app();
    app.schedule.pending_agent_resume_deadline = Some(NOW - 1_000);

    let mut run = app.begin_scheduled_tasks(NOW, true);
    assert_eq!(app.handle_scheduled_tasks(&mut run), None);
    assert!(!run.changed);
    assert!(app.schedule.pending_agent_resume_deadline.is_none());
}

#[test]
fn clean_geometry_lets_agents_resume() {
    let mut app = app();
    app.schedule.pending_agent_resume_deadline = Some(NOW - 1_000);

    let mut run = app.begin_scheduled_tasks(NOW, false);
    assert_eq!(app.handle_scheduled_tasks(&mut run), Some(Task::AgentResume));
    assert_eq!(app.schedule.pending_agent_resume_deadline, Some(NOW - 1_000));
    app.finish_agent_resume(&mut run, true, Some(LATER));
    assert_eq!(app.handle_scheduled_tasks(&mut run), None);
    assert!(run.changed);
    assert_eq!(app.schedule.pending_agent_resume_deadline, Some(LATER));
}

#[test]
fn changed_size_of_the_screen_holds_agents_back() {
    let mut app = app();
    app.schedule.next_resize_poll = NOW;
    app.schedule.pending_agent_resume_deadline = Some(NOW);
    let size = Some(TerminalSize {
        columns: 80,
        rows: 24,
    });

    let mut run = app.begin_scheduled_tasks(NOW, false);
    assert_eq!(app.handle_scheduled_tasks(&mut run), Some(Task::ResizePoll));
    app.terminal_size_read(&mut run, size);
    assert_eq!(app.handle_scheduled_tasks(&mut run), None);
    assert!(run.changed);
    assert_eq!(app.schedule.pending_agent_resume_deadline, None);
    assert_eq!(app.schedule.next_resize_poll, NOW + 200);
    assert_eq!(app.schedule.last_terminal_size, size);

    // The same size again is no change.
    let mut run = app.begin_scheduled_tasks(NOW + 200, false);
    assert_eq!(app.handle_scheduled_tasks(&mut run), Some(Task::ResizePoll));
    app.terminal_size_read(&mut run, size);
    assert_eq!(app.handle_scheduled_tasks(&mut run), Some(Task::AgentResume));
    assert!(!run.changed);
}

#[test]
fn size_that_cannot_be_read_is_no_change() {
    let mut app = app();
    let size = Some(TerminalSize {
        columns: 80,
        rows: 24,
    });
    assert!(app.handle_resize_poll(size));
    assert!(!app.handle_resize_poll(None));
    assert_eq!(app.schedule.last_terminal_size, size);
    assert!(!app.handle_resize_poll(size));
}

#[test]
fn round_does_every_task_that_is_due_in_order() {
    let mut app = app();
    app.terminals.get_mut(TERMINAL).unwrap().state = AgentState::Working;
    app.terminals.get_mut(TERMINAL).unwrap().wait_lease =
        Some(WaitLease::new("job".into(), "a".repeat(64), 50));
    app.schedule.next_wait_lease_poll = NOW;
    app.schedule.next_resize_poll = NOW;
    app.schedule.config_diagnostic_deadline = Some(NOW);
    app.schedule.config_diagnostic_shown = true;
    app.schedule.toast_deadline = Some(NOW);
    app.schedule.toast_shown = true;
    app.schedule.pending_agent_notification_deadline = Some(NOW);
    app.schedule.managed_agent_deadline = Some(NOW);
    app.schedule.copy_feedback_deadline = Some(NOW);
    app.schedule.copy_feedback_shown = true;
    app.schedule.next_animation_tick = Some(NOW);
    app.schedule.spinner_tick = u32::MAX;
    app.selection.selection_autoscroll_deadline = Some(NOW);
    app.selection.selection_highlight_clear_deadline = Some(NOW);
    app.selection.selection = Some(Selection {
        pane_id: 2,
        phase: SelectionPhase::Done,
    });
    app.schedule.git.last_refresh = NOW - 5_000;
    app.schedule.next_auto_update_check = Some(NOW);
    app.schedule.next_agent_manifest_update_check = Some(NOW);
    app.schedule.session_save_deadline = Some(NOW);
    app.schedule.agent_metadata_deadline = Some(NOW);

    let mut seen = Vec::new();
    let mut run = app.begin_scheduled_tasks(NOW, false);
    while let Some(task) = app.handle_scheduled_tasks(&mut run) {
        seen.push(task);
        match task {
            Task::WaitLeases => app.wait_leases_polled(&mut run, false, &Ok(50)),
            Task::ResizePoll => app.terminal_size_read(&mut run, None),
            Task::Notifications => app.notifications_delivered(&mut run, true),
            Task::ManagedAgents => app.finish_managed_agents(
                &mut run,
                &vec![PaneRef {
                    workspace_index: 0,
                    pane_id: 2,
                }],
            ),
            Task::Autoscroll => app.finish_autoscroll(&mut run, None, None),
            Task::GitRefresh => assert!(app.finish_git_refresh(&mut run, &vec![item("test")])),
            Task::AutoUpdate => assert!(app.finish_auto_update(&mut run, true, NOW + 1)),
            Task::ManifestUpdate => assert!(app.finish_manifest_update(&mut run, true, NOW + 1)),
            Task::SessionSave => app.finish_session_save(&mut run, None),
            Task::Metadata => app.finish_metadata(
                &mut run,
                &vec![PaneRef {
                    workspace_index: 0,
                    pane_id: 2,
                }],
                &vec![0],
                Some(LATER),
            ),
            Task::AgentResume => app.finish_agent_resume(&mut run, false, None),
            _ => unreachable!("a task that needs nothing from outside"),
        }
    }
    assert_eq!(
        seen,
        vec![
            Task::WaitLeases,
            Task::ResizePoll,
            Task::Notifications,
            Task::ManagedAgents,
            Task::Autoscroll,
            Task::GitRefresh,
            Task::AutoUpdate,
            Task::ManifestUpdate,
            Task::SessionSave,
            Task::Metadata,
            Task::AgentResume,
        ]
    );
    assert!(run.changed);
    assert_eq!(run.task, Task::Finished);
    assert_eq!(
        app.schedule.next_wait_lease_poll,
        NOW + WAIT_LEASE_POLL_INTERVAL_NS
    );
    assert!(app.terminals.get(TERMINAL).unwrap().wait_lease.is_none());
    assert_eq!(app.schedule.config_diagnostic_deadline, None);
    assert!(!app.schedule.config_diagnostic_shown);
    assert_eq!(app.schedule.toast_deadline, None);
    assert!(!app.schedule.toast_shown);
    assert_eq!(app.schedule.copy_feedback_deadline, None);
    assert!(!app.schedule.copy_feedback_shown);
    assert_eq!(app.schedule.spinner_tick, 0);
    assert_eq!(app.schedule.next_animation_tick, Some(NOW + 100));
    assert_eq!(app.selection.selection_autoscroll_deadline, None);
    assert_eq!(app.selection.selection_highlight_clear_deadline, None);
    assert_eq!(app.selection.selection, None);
    assert!(app.schedule.git.in_flight);
    assert_eq!(app.schedule.next_auto_update_check, Some(NOW + 10_001));
    assert_eq!(
        app.schedule.next_agent_manifest_update_check,
        Some(NOW + 10_001)
    );
    assert_eq!(app.schedule.session_save_deadline, None);
    assert_eq!(app.schedule.agent_metadata_deadline, Some(LATER));
    assert_eq!(
        app.effects,
        vec![
            Effect::RecomputeAgentState {
                workspace_index: 0,
                pane_id: 2,
            },
            Effect::PaneUpdated {
                workspace_index: 0,
                pane_id: 2,
            },
            Effect::PaneUpdated {
                workspace_index: 0,
                pane_id: 2,
            },
            Effect::ScheduleSessionSave,
            Effect::PaneUpdated {
                workspace_index: 0,
                pane_id: 2,
            },
            Effect::WorkspaceTokenUpdated { workspace_index: 0 },
        ]
    );
}

#[test]
fn round_before_the_loop_deadline_does_nothing() {
    let mut app = app();
    app.schedule.toast_deadline = Some(NOW + 70);
    app.schedule.toast_shown = true;
    app.schedule.session_save_deadline = Some(NOW + 90);
    let deadline = app.next_loop_deadline(NOW, false).unwrap();
    assert_eq!(deadline, NOW + 70);

    let before = app.schedule;
    let mut run = app.begin_scheduled_tasks(deadline - 1, true);
    assert_eq!(app.handle_scheduled_tasks(&mut run), None);
    assert!(!run.changed);
    assert_eq!(app.schedule, before);
    assert!(app.effects.is_empty());

    let mut run = app.begin_scheduled_tasks(deadline, true);
    assert_eq!(app.handle_scheduled_tasks(&mut run), None);
    assert!(run.changed);
    assert!(!app.schedule.toast_shown);
}

#[test]
fn notifications_and_managed_agents_count_only_when_there_are_any() {
    let mut app = app();
    app.schedule.pending_agent_notification_deadline = Some(NOW);
    app.schedule.managed_agent_deadline = Some(NOW);
    let mut run = app.begin_scheduled_tasks(NOW, true);
    assert_eq!(app.handle_scheduled_tasks(&mut run), Some(Task::Notifications));
    app.notifications_delivered(&mut run, false);
    assert_eq!(app.handle_scheduled_tasks(&mut run), Some(Task::ManagedAgents));
    app.finish_managed_agents(&mut run, &Vec::new());
    assert_eq!(app.handle_scheduled_tasks(&mut run), None);
    assert!(!run.changed);
    assert!(app.effects.is_empty());
}

#[test]
fn screen_is_not_drawn_too_often() {
    let mut app = app();
    assert!(app.can_render_now(NOW));
    app.schedule.last_render_at = Some(NOW);
    assert!(!app.can_render_now(NOW));
    assert!(!app.can_render_now(NOW + 15));
    assert!(app.can_render_now(NOW + 16));
    // A clock that seems to have gone back is no reason to draw.
    assert!(!app.can_render_now(NOW - 1));
}

#[test]
fn loop_wakes_up_to_draw_only_when_it_has_to() {
    let mut app = app();
    app.schedule.last_render_at = Some(NOW);
    app.schedule.git.in_flight = true;
    assert_eq!(app.next_loop_deadline(NOW + 1, true), Some(NOW + 16));
    assert_eq!(app.next_loop_deadline(NOW + 1, false), Some(LATER));
    assert_eq!(app.next_loop_deadline(NOW + 16, true), Some(LATER));
}

#[test]
fn loop_wakes_up_for_the_first_of_its_deadlines() {
    let mut app = app();
    app.schedule.git.in_flight = true;
    app.schedule.next_wait_lease_poll = NOW + 40;
    app.schedule.next_resize_poll = NOW + 30;
    assert_eq!(app.next_loop_deadline(NOW, false), Some(NOW + 30));
    assert_eq!(
        app.next_headless_loop_deadline_with_git_refresh(NOW, false, true),
        Some(NOW + 40)
    );
    app.selection.selection_autoscroll_deadline = Some(NOW + 20);
    assert_eq!(app.next_loop_deadline(NOW, false), Some(NOW + 20));
    app.selection.selection_highlight_clear_deadline = Some(NOW + 10);
    assert_eq!(app.next_loop_deadline(NOW, false), Some(NOW + 10));
    app.schedule.agent_metadata_deadline = Some(NOW + 5);
    assert_eq!(app.next_loop_deadline(NOW, false), Some(NOW + 5));
    app.schedule.managed_agent_deadline = Some(NOW);
    assert_eq!(app.next_loop_deadline(NOW, false), Some(NOW));
}

#[test]
fn earliest_of_some_deadlines() {
    assert_eq!(earliest(&Vec::new()), None);
    assert_eq!(earliest(&vec![None, None]), None);
    assert_eq!(earliest(&vec![None, Some(7), Some(3), Some(9)]), Some(3));
    assert!(due(Some(7), 7));
    assert!(!due(Some(7), 6));
    assert!(!due(None, 7));
}

#[test]
fn git_refresh_is_due_after_its_interval() {
    let mut app = app();
    assert_eq!(app.git_refresh_deadline(), Some(NOW + 5_000));
    assert!(!app.git_status_refresh_is_due(NOW + 4_999));
    assert!(app.git_status_refresh_is_due(NOW + 5_000));

    assert!(app.start_git_status_refresh(NOW + 5_000, &vec![item("test")]));
    assert_eq!(app.git_refresh_deadline(), None);
    app.git_status_refreshed(NOW + 5_100);
    assert_eq!(app.git_refresh_deadline(), Some(NOW + 10_100));
}

#[test]
fn git_refresh_of_nothing_is_over_at_once() {
    let mut app = app();
    assert!(!app.start_git_status_refresh(NOW + 5_000, &Vec::new()));
    assert!(!app.schedule.git.in_flight);
    assert_eq!(app.git_refresh_deadline(), Some(NOW + 10_000));
}

#[test]
fn git_refresh_that_is_asked_for_is_due_at_once() {
    let mut app = app();
    app.schedule.git.due_after_in_flight = true;
    app.mark_git_status_refresh_due(NOW + 1);
    assert!(!app.schedule.git.due_after_in_flight);
    assert!(app.git_status_refresh_is_due(NOW + 1));
    // There is no moment that long ago.
    app.mark_git_status_refresh_due(4_999);
    assert_eq!(app.git_refresh_deadline(), Some(9_999));
}

#[test]
fn animation_runs_while_an_agent_works() {
    let mut app = app();
    app.sync_animation_timer(NOW);
    assert_eq!(app.schedule.next_animation_tick, None);
    app.terminals.get_mut(TERMINAL).unwrap().state = AgentState::Working;
    app.sync_animation_timer(NOW);
    assert_eq!(app.schedule.next_animation_tick, Some(NOW + 100));
    app.sync_animation_timer(NOW + 50);
    assert_eq!(app.schedule.next_animation_tick, Some(NOW + 100));
    app.terminals.get_mut(TERMINAL).unwrap().state = AgentState::Other;
    app.sync_headless_animation_timer(NOW);
    assert_eq!(app.schedule.next_animation_tick, None);
    app.terminals.get_mut(TERMINAL).unwrap().state = AgentState::Working;
    app.sync_headless_animation_timer(NOW);
    assert_eq!(app.schedule.next_animation_tick, Some(NOW + 500));
}

#[test]
fn update_checks_stop_when_they_are_not_wanted() {
    let mut app = app();
    assert!(app.run_auto_update_check(true, NOW));
    assert_eq!(app.schedule.next_auto_update_check, Some(NOW + 10_000));
    app.schedule.update_available = true;
    assert!(!app.run_auto_update_check(true, NOW));
    assert_eq!(app.schedule.next_auto_update_check, None);
    app.schedule.update_available = false;
    app.schedule.next_auto_update_check = Some(NOW);
    assert!(!app.run_auto_update_check(false, NOW));
    assert_eq!(app.schedule.next_auto_update_check, None);

    app.schedule.update_available = true;
    assert!(app.run_agent_manifest_update_check(true, NOW));
    assert_eq!(
        app.schedule.next_agent_manifest_update_check,
        Some(NOW + 10_000)
    );
    assert!(!app.run_agent_manifest_update_check(false, NOW));
    assert_eq!(app.schedule.next_agent_manifest_update_check, None);
}

#[test]
fn metadata_is_expired_when_its_moment_has_come() {
    let mut app = app();
    assert_eq!(app.due_metadata_deadline(NOW), None);
    app.sync_agent_metadata_deadline(Some(NOW));
    assert_eq!(app.due_metadata_deadline(NOW - 1), None);
    assert_eq!(app.due_metadata_deadline(NOW + 1), Some(NOW));
    app.expire_metadata_at(&Vec::new(), &vec![4, 2], None);
    assert_eq!(app.schedule.agent_metadata_deadline, None);
    assert_eq!(
        app.effects,
        vec![
            Effect::WorkspaceTokenUpdated { workspace_index: 4 },
            Effect::WorkspaceTokenUpdated { workspace_index: 2 },
        ]
    );
}
