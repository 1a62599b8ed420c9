use herdr::app::{App, Effect};
use herdr::layout::Layout;
use herdr::names::NameSet;
use herdr::schedule::{GitRefresh, Intervals, Schedule};
use herdr::selection::{
    Rect, ScrollMetrics, Selection, SelectionAutoscroll, SelectionAutoscrollDirection,
    SelectionPhase, SelectionState,
};
use herdr::terminal::TerminalTable;

const NOW: u64 = 1_000_000;
const PANE: u32 = 4;

fn rect() -> Rect {
    Rect {
        x: 0,
        y: 0,
        width: 80,
        height: 24,
    }
}

fn app() -> App {
    App {
        layout: Layout {
            workspaces: Vec::new(),
            public_panes: Vec::new(),
        },
        terminals: TerminalTable::new(),
        schedule: Schedule {
            intervals: Intervals {
                animation: 100,
                headless_animation: 500,
                min_render: 16,
                resize_poll: 200,
                selection_autoscroll: 50,
                auto_update_check: 10_000,
                git_refresh: 5_000,
            },
            next_wait_lease_poll: 0,
            next_resize_poll: 0,
            config_diagnostic_deadline: None,
            toast_deadline: None,
            pending_agent_notification_deadline: None,
            managed_agent_deadline: None,
            copy_feedback_deadline: None,
            next_animation_tick: None,
            next_auto_update_check: None,
            next_agent_manifest_update_check: None,
            agent_metadata_deadline: None,
            pending_agent_resume_deadline: None,
            session_save_deadline: None,
            last_render_at: None,
            git: GitRefresh {
                in_flight: false,
                due_after_in_flight: false,
                last_refresh: 0,
            },
            config_diagnostic_shown: false,
            toast_shown: false,
            copy_feedback_shown: false,
            spinner_tick: 0,
            last_terminal_size: None,
            update_available: false,
        },
        selection: SelectionState {
            selection: None,
            selection_autoscroll: None,
            selection_autoscroll_deadline: None,
            selection_highlight_clear_deadline: None,
        },
        suppressed_repeat_keys: NameSet::new(),
        terminal_runtimes: NameSet::new(),
        terminal_runtime_shutdowns: Vec::new(),
        effects: Vec::new(),
    }
}

fn selection(phase: SelectionPhase) -> Option<Selection> {
    Some(Selection {
        pane_id: PANE,
        phase,
    })
}

fn autoscroll(
    direction: SelectionAutoscrollDirection,
    last_mouse_screen_col: u16,
    last_mouse_screen_row: u16,
) -> Option<SelectionAutoscroll> {
    Some(SelectionAutoscroll {
        direction,
        last_mouse_screen_col,
        last_mouse_screen_row,
        inner_rect: rect(),
    })
}

fn metrics(offset_from_bottom: usize, max_offset_from_bottom: usize) -> Option<ScrollMetrics> {
    Some(ScrollMetrics {
        offset_from_bottom,
        max_offset_from_bottom,
    })
}

#[test]
fn tick_selection_autoscroll_stops_when_metrics_unavailable() {
    let mut app = app();
    app.selection.selection = selection(SelectionPhase::Dragging);
    app.selection.selection_autoscroll = autoscroll(SelectionAutoscrollDirection::Down, 5, 23);
    app.selection.selection_autoscroll_deadline = Some(NOW);
    app.tick_selection_autoscroll(NOW, Some(rect()), None);
    assert!(app.selection.selection_autoscroll.is_none());
    assert!(app.selection.selection_autoscroll_deadline.is_none());
}

#[test]
fn tick_selection_autoscroll_stops_when_selection_done() {
    let mut app = app();
    app.selection.selection = selection(SelectionPhase::Done);
    app.selection.selection_autoscroll = autoscroll(SelectionAutoscrollDirection::Down, 0, 23);
    app.selection.selection_autoscroll_deadline = Some(NOW);
    app.tick_selection_autoscroll(NOW, Some(rect()), metrics(1, 5));
    assert!(app.selection.selection_autoscroll.is_none());
    assert!(app.selection.selection_autoscroll_deadline.is_none());
}

#[test]
fn tick_selection_autoscroll_stops_when_selection_cleared() {
    let mut app = app();
    app.selection.selection = None;
    app.selection.selection_autoscroll = autoscroll(SelectionAutoscrollDirection::Down, 0, 23);
    app.selection.selection_autoscroll_deadline = Some(NOW);
    app.tick_selection_autoscroll(NOW, Some(rect()), metrics(1, 5));
    assert!(app.selection.selection_autoscroll.is_none());
    assert!(app.selection.selection_autoscroll_deadline.is_none());
}

#[test]
fn tick_selection_autoscroll_stops_when_selection_anchored() {
    let mut app = app();
    app.selection.selection = selection(SelectionPhase::Anchored);
    app.selection.selection_autoscroll = autoscroll(SelectionAutoscrollDirection::Down, 0, 23);
    app.selection.selection_autoscroll_deadline = Some(NOW);
    app.tick_selection_autoscroll(NOW, Some(rect()), metrics(1, 5));
    assert!(app.selection.selection_autoscroll.is_none());
    assert!(app.selection.selection_autoscroll_deadline.is_none());
}

#[test]
fn tick_selection_autoscroll_stops_at_scrollback_top() {
    let mut app = app();
    app.selection.selection = selection(SelectionPhase::Dragging);
    app.selection.selection_autoscroll = autoscroll(SelectionAutoscrollDirection::Up, 0, 0);
    app.selection.selection_autoscroll_deadline = Some(NOW);
    app.tick_selection_autoscroll(NOW, Some(rect()), metrics(0, 0));
    assert!(app.selection.selection_autoscroll.is_none());
    assert!(app.selection.selection_autoscroll_deadline.is_none());
}

#[test]
fn tick_selection_autoscroll_stops_at_scrollback_bottom() {
    let mut app = app();
    app.selection.selection = selection(SelectionPhase::Dragging);
    app.selection.selection_autoscroll = autoscroll(SelectionAutoscrollDirection::Down, 5, 23);
    app.selection.selection_autoscroll_deadline = Some(NOW);
    app.tick_selection_autoscroll(NOW, Some(rect()), metrics(0, 0));
    assert!(app.selection.selection_autoscroll.is_none());
    assert!(app.selection.selection_autoscroll_deadline.is_none());
}

#[test]
fn held_drag_scrolls_up_and_takes_the_selection_along() {
    let mut app = app();
    app.selection.selection = selection(SelectionPhase::Dragging);
    app.selection.selection_autoscroll = autoscroll(SelectionAutoscrollDirection::Up, 3, 0);
    app.selection.selection_autoscroll_deadline = Some(NOW);
    let before = app.selection;
    app.tick_selection_autoscroll(NOW, Some(rect()), metrics(4, 5));
    assert_eq!(
        app.selection,
        SelectionState {
            selection_autoscroll_deadline: Some(NOW + 50),
            ..before
        }
    );
    assert_eq!(
        app.effects,
        vec![
            Effect::ScrollPaneUp {
                pane_id: PANE,
                lines: 1,
            },
            Effect::UpdateSelectionCursor {
                pane_id: PANE,
                screen_col: 3,
                screen_row: 0,
            },
        ]
    );
}

#[test]
fn held_drag_scrolls_down_until_the_bottom() {
    let mut app = app();
    app.selection.selection = selection(SelectionPhase::Dragging);
    app.selection.selection_autoscroll = autoscroll(SelectionAutoscrollDirection::Down, 5, 23);
    app.tick_selection_autoscroll(NOW, Some(rect()), metrics(1, 5));
    assert_eq!(app.effects.len(), 2);
    assert_eq!(
        app.effects[0],
        Effect::ScrollPaneDown {
            pane_id: PANE,
            lines: 1,
        }
    );
    assert_eq!(app.selection.selection_autoscroll_deadline, Some(NOW + 50));
}

#[test]
fn pane_that_moved_does_not_scroll_on() {
    let moved = Rect {
        x: 1,
        ..rect()
    };
    for place in [Some(moved), None] {
        let mut app = app();
        app.selection.selection = selection(SelectionPhase::Dragging);
        app.selection.selection_autoscroll = autoscroll(SelectionAutoscrollDirection::Up, 3, 0);
        app.selection.selection_autoscroll_deadline = Some(NOW);
        app.tick_selection_autoscroll(NOW, place, metrics(4, 5));
        assert!(app.selection.selection_autoscroll.is_none());
        assert!(app.selection.selection_autoscroll_deadline.is_none());
        assert!(app.effects.is_empty());
        assert!(app.selection.selection.is_some());
    }
}

#[test]
fn timer_without_a_drag_is_dropped() {
    let mut app = app();
    app.selection.selection = selection(SelectionPhase::Dragging);
    app.selection.selection_autoscroll_deadline = Some(NOW);
    app.tick_selection_autoscroll(NOW, Some(rect()), metrics(4, 5));
    assert!(app.selection.selection_autoscroll_deadline.is_none());
    assert!(app.effects.is_empty());
}

#[test]
fn highlight_is_cleared_when_its_time_is_over() {
    let mut app = app();
    app.selection.selection = selection(SelectionPhase::Done);
    assert!(!app.clear_due_selection_highlight(NOW));
    app.selection.selection_highlight_clear_deadline = Some(NOW + 1);
    assert!(!app.clear_due_selection_highlight(NOW));
    assert!(app.selection.selection.is_some());
    assert!(app.clear_due_selection_highlight(NOW + 1));
    assert!(app.selection.selection.is_none());
    assert!(app.selection.selection_highlight_clear_deadline.is_none());
}

#[test]
fn selection_in_progress_outlives_a_highlight() {
    for phase in [SelectionPhase::Anchored, SelectionPhase::Dragging] {
        let mut app = app();
        app.selection.selection = selection(phase);
        app.selection.selection_highlight_clear_deadline = Some(NOW);
        assert!(!app.clear_due_selection_highlight(NOW));
        assert!(app.selection.selection.is_some());
        assert!(app.selection.selection_highlight_clear_deadline.is_none());
    }
}
