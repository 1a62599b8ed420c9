//! The text selection of the user: scrolling on while a drag is held at the edge of a
//! pane, and clearing what was highlighted for a moment.

use crate::app::{App, Effect};
use crate::layout::PaneId;
use vstd::prelude::*;

verus! {

/// A rectangle of screen cells.
#[derive(Debug, Clone, Copy, PartialEq, Eq, Structural)]
pub struct Rect {
    pub x: u16,
    pub y: u16,
    pub width: u16,
    pub height: u16,
}

/// How far a selection has come: the button is down, it is being dragged, or it is
/// complete.
#[derive(Debug, Clone, Copy, PartialEq, Eq, Structural)]
pub enum SelectionPhase {
    Anchored,
    Dragging,
    Done,
}

#[derive(Debug, Clone, Copy, PartialEq, Eq, Structural)]
pub struct Selection {
    pub pane_id: PaneId,
    pub phase: SelectionPhase,
}

#[derive(Debug, Clone, Copy, PartialEq, Eq, Structural)]
pub enum SelectionAutoscrollDirection {
    Up,
    Down,
}

/// A drag that is held at the edge of a pane.
#[derive(Debug, Clone, Copy, PartialEq, Eq, Structural)]
pub struct SelectionAutoscroll {
    pub direction: SelectionAutoscrollDirection,
    pub last_mouse_screen_col: u16,
    pub last_mouse_screen_row: u16,
    pub inner_rect: Rect,
}

/// How far a pane is scrolled back.
#[derive(Debug, Clone, Copy, PartialEq, Eq, Structural)]
pub struct ScrollMetrics {
    pub offset_from_bottom: usize,
    pub max_offset_from_bottom: usize,
}

/// The selection, and what is to happen to it and when.
#[derive(Debug, Clone, Copy, PartialEq, Eq, Structural)]
pub struct SelectionState {
    pub selection: Option<Selection>,
    pub selection_autoscroll: Option<SelectionAutoscroll>,
    pub selection_autoscroll_deadline: Option<u64>,
    pub selection_highlight_clear_deadline: Option<u64>,
}

impl Selection {
    pub open spec fn in_progress(self) -> bool {
        self.phase != SelectionPhase::Done
    }

    pub fn is_in_progress(&self) -> (r: bool)
        ensures
            r == self.in_progress(),
    {
        self.phase != SelectionPhase::Done
    }

    pub fn is_dragging(&self) -> (r: bool)
        ensures
            r == (self.phase == SelectionPhase::Dragging),
    {
        self.phase == SelectionPhase::Dragging
    }
}

/// There is room to scroll on in the given direction.
pub open spec fn can_scroll(direction: SelectionAutoscrollDirection, metrics: ScrollMetrics) -> bool {
    match direction {
        SelectionAutoscrollDirection::Up => metrics.offset_from_bottom
            < metrics.max_offset_from_bottom,
        SelectionAutoscrollDirection::Down => metrics.offset_from_bottom != 0,
    }
}

impl SelectionState {
    /// Scrolling goes on: the selection is being dragged, its pane is where it was when
    /// the drag reached the edge, and there is something left to scroll to. A pane of
    /// which that is not known does not scroll on.
    pub open spec fn scrolls_on(
        self,
        current_rect: Option<Rect>,
        metrics: Option<ScrollMetrics>,
    ) -> bool {
        &&& self.selection_autoscroll matches Some(autoscroll)
        &&& self.selection matches Some(selection)
        &&& selection.phase == SelectionPhase::Dragging
        &&& current_rect == Some(autoscroll.inner_rect)
        &&& metrics matches Some(metrics)
        &&& can_scroll(autoscroll.direction, metrics)
    }

    /// The selection without a scroll under way.
    pub open spec fn stopped(self) -> SelectionState {
        SelectionState {
            selection_autoscroll: None,
            selection_autoscroll_deadline: None,
            ..self
        }
    }

    /// The selection after a tick of the scroll timer.
    pub open spec fn ticked(
        self,
        next: u64,
        current_rect: Option<Rect>,
        metrics: Option<ScrollMetrics>,
    ) -> SelectionState {
        if self.scrolls_on(current_rect, metrics) {
            SelectionState { selection_autoscroll_deadline: Some(next), ..self }
        } else {
            self.stopped()
        }
    }

    /// The work that a tick of the scroll timer leaves to do: one line in the direction
    /// of the drag, and then the selection follows to where the mouse is.
    pub open spec fn tick_effects(
        self,
        current_rect: Option<Rect>,
        metrics: Option<ScrollMetrics>,
    ) -> Seq<Effect> {
        if self.scrolls_on(current_rect, metrics) {
            let pane_id = self.selection->0.pane_id;
            let autoscroll = self.selection_autoscroll->0;
            seq![
                match autoscroll.direction {
                    SelectionAutoscrollDirection::Up => Effect::ScrollPaneUp { pane_id, lines: 1 },
                    SelectionAutoscrollDirection::Down => Effect::ScrollPaneDown {
                        pane_id,
                        lines: 1,
                    },
                },
                Effect::UpdateSelectionCursor {
                    pane_id,
                    screen_col: autoscroll.last_mouse_screen_col,
                    screen_row: autoscroll.last_mouse_screen_row,
                },
            ]
        } else {
            Seq::empty()
        }
    }

    /// A highlight that was to last for a moment is over.
    pub open spec fn highlight_is_over(self, now: u64) -> bool {
        self.selection_highlight_clear_deadline matches Some(deadline) && now >= deadline
    }

    /// The selection after the highlights that are over were cleared.
    pub open spec fn highlight_cleared(self, now: u64) -> SelectionState {
        if self.highlight_is_over(now) {
            SelectionState {
                selection_highlight_clear_deadline: None,
                selection: match self.selection {
                    Some(selection) if !selection.in_progress() => None,
                    other => other,
                },
                ..self
            }
        } else {
            self
        }
    }
}

impl App {
    /// Nothing but the selection and the work to do differs.
    pub open spec fn only_selection_differs(before: App, after: App) -> bool {
        after == (App { selection: after.selection, effects: after.effects, ..before })
    }

    pub fn stop_selection_autoscroll(&mut self)
        ensures
            *final(self) == (App { selection: old(self).selection.stopped(), ..*old(self) }),
    {
        self.selection.selection_autoscroll = None;
        self.selection.selection_autoscroll_deadline = None;
    }

    /// One tick of the scroll timer. `current_rect` is where the pane of the selection
    /// is now, and `metrics` is how far it is scrolled back, as far as that is known.
    pub fn tick_selection_autoscroll(
        &mut self,
        now: u64,
        current_rect: Option<Rect>,
        metrics: Option<ScrollMetrics>,
    )
        requires
            old(self).selection.scrolls_on(current_rect, metrics) ==> now
                + old(self).schedule.intervals.selection_autoscroll <= u64::MAX,
        ensures
            App::only_selection_differs(*old(self), *final(self)),
            final(self).selection == old(self).selection.ticked(
                (now + old(self).schedule.intervals.selection_autoscroll) as u64,
                current_rect,
                metrics,
            ),
            final(self).effects@ == old(self).effects@ + old(self).selection.tick_effects(
                current_rect,
                metrics,
            ),
    {
        assert(self.effects@ =~= self.effects@ + Seq::<Effect>::empty());
        let autoscroll = match self.selection.selection_autoscroll {
            Some(autoscroll) => autoscroll,
            None => {
                // The drag is over but its timer is still set.
                self.selection.selection_autoscroll_deadline = None;
                return;
            },
        };
        let selection = match self.selection.selection {
            Some(selection) => selection,
            None => {
                self.stop_selection_autoscroll();
                return;
            },
        };
        if !selection.is_dragging() {
            self.stop_selection_autoscroll();
            return;
        }
        let unmoved = match current_rect {
            Some(rect) => rect == autoscroll.inner_rect,
            None => false,
        };
        if !unmoved {
            self.stop_selection_autoscroll();
            return;
        }
        let metrics = match metrics {
            Some(metrics) => metrics,
            None => {
                self.stop_selection_autoscroll();
                return;
            },
        };
        let pane_id: PaneId = selection.pane_id;
        match autoscroll.direction {
            SelectionAutoscrollDirection::Up => {
                if metrics.offset_from_bottom >= metrics.max_offset_from_bottom {
                    self.stop_selection_autoscroll();
                    return;
                }
                self.effects.push(Effect::ScrollPaneUp { pane_id, lines: 1 });
            },
            SelectionAutoscrollDirection::Down => {
                if metrics.offset_from_bottom == 0 {
                    self.stop_selection_autoscroll();
                    return;
                }
                self.effects.push(Effect::ScrollPaneDown { pane_id, lines: 1 });
            },
        }
        self.effects.push(
            Effect::UpdateSelectionCursor {
                pane_id,
                screen_col: autoscroll.last_mouse_screen_col,
                screen_row: autoscroll.last_mouse_screen_row,
            },
        );
        self.selection.selection_autoscroll_deadline = Some(
            now + self.schedule.intervals.selection_autoscroll,
        );
        assert(self.effects@ =~= old(self).effects@ + old(self).selection.tick_effects(
            current_rect,
            Some(metrics),
        ));
    }

    /// Clears a highlight that was to last for a moment, such as that of a word that was
    /// copied. Says whether a selection went with it.
    pub fn clear_due_selection_highlight(&mut self, now: u64) -> (r: bool)
        ensures
            *final(self) == (App {
                selection: old(self).selection.highlight_cleared(now),
                ..*old(self)
            }),
            r == (old(self).selection.highlight_is_over(now) && (
            old(self).selection.selection matches Some(selection) && !selection.in_progress())),
    {
        let over = match self.selection.selection_highlight_clear_deadline {
            Some(deadline) => now >= deadline,
            None => false,
        };
        if !over {
            return false;
        }
        self.selection.selection_highlight_clear_deadline = None;
        if let Some(selection) = self.selection.selection {
            if !selection.is_in_progress() {
                self.selection.selection = None;
                return true;
            }
        }
        false
    }
}

/// The scroll timer runs exactly while a drag is held at an edge.
pub proof fn timer_stops_with_the_drag(
    state: SelectionState,
    next: u64,
    current_rect: Option<Rect>,
    metrics: Option<ScrollMetrics>,
)
    ensures
        state.ticked(next, current_rect, metrics).selection_autoscroll_deadline is Some <==>
            state.ticked(next, current_rect, metrics).selection_autoscroll is Some,
{
}

/// Without anything known of the pane, or without a selection that is being dragged,
/// scrolling stops and stays stopped.
pub proof fn stopped_scroll_stays_stopped(
    state: SelectionState,
    next: u64,
    current_rect: Option<Rect>,
    metrics: Option<ScrollMetrics>,
)
    ensures
        metrics is None || state.selection is None || state.selection->0.phase
            != SelectionPhase::Dragging ==> state.ticked(next, current_rect, metrics)
            == state.stopped(),
        state.stopped().ticked(next, current_rect, metrics) == state.stopped(),
        state.stopped().tick_effects(current_rect, metrics).len() == 0,
{
}

/// A drag that is held at an edge scrolls on exactly as long as the selection is being
/// dragged, its pane has not moved, and there is room: upwards until the top is reached,
/// downwards until the bottom is. It scrolls by one line, and the selection follows to
/// where the mouse was last.
pub proof fn drag_scrolls_while_there_is_room(
    state: SelectionState,
    next: u64,
    current_rect: Option<Rect>,
    metrics: Option<ScrollMetrics>,
)
    ensures
        ({
            let after = state.ticked(next, current_rect, metrics);
            let effects = state.tick_effects(current_rect, metrics);
            let held = state.selection_autoscroll->0;
            let selection = state.selection->0;
            let known = metrics->0;
            let unmoved = state.selection_autoscroll is Some && state.selection is Some
                && selection.phase == SelectionPhase::Dragging && current_rect is Some
                && current_rect->0 == held.inner_rect && metrics is Some;
            let up = held.direction == SelectionAutoscrollDirection::Up;
            let room = if up {
                known.offset_from_bottom < known.max_offset_from_bottom
            } else {
                known.offset_from_bottom > 0
            };
            if unmoved && room {
                &&& after.selection_autoscroll_deadline == Some(next)
                &&& after.selection_autoscroll == state.selection_autoscroll
                &&& after.selection == state.selection
                &&& after.selection_highlight_clear_deadline
                    == state.selection_highlight_clear_deadline
                &&& effects.len() == 2
                &&& up ==> effects[0] == (Effect::ScrollPaneUp {
                    pane_id: selection.pane_id,
                    lines: 1,
                })
                &&& !up ==> effects[0] == (Effect::ScrollPaneDown {
                    pane_id: selection.pane_id,
                    lines: 1,
                })
                &&& effects[1] == (Effect::UpdateSelectionCursor {
                    pane_id: selection.pane_id,
                    screen_col: held.last_mouse_screen_col,
                    screen_row: held.last_mouse_screen_row,
                })
            } else {
                &&& after.selection_autoscroll is None
                &&& after.selection_autoscroll_deadline is None
                &&& after.selection == state.selection
                &&& after.selection_highlight_clear_deadline
                    == state.selection_highlight_clear_deadline
                &&& effects.len() == 0
            }
        }),
{
}

/// A highlight is cleared from its moment on, once, and takes the selection with it only
/// if that is complete. Before its moment nothing changes.
pub proof fn highlight_lasts_until_its_moment(state: SelectionState, now: u64)
    ensures
        ({
            let after = state.highlight_cleared(now);
            let over = state.selection_highlight_clear_deadline is Some
                && state.selection_highlight_clear_deadline->0 <= now;
            let complete = state.selection is Some && state.selection->0.phase
                == SelectionPhase::Done;
            &&& state.highlight_is_over(now) == over
            &&& !over ==> after == state
            &&& over ==> {
                &&& after.selection_highlight_clear_deadline is None
                &&& complete ==> after.selection is None
                &&& !complete ==> after.selection == state.selection
                &&& after.selection_autoscroll == state.selection_autoscroll
                &&& after.selection_autoscroll_deadline == state.selection_autoscroll_deadline
            }
            &&& state.stopped() == (SelectionState {
                selection: state.selection,
                selection_autoscroll: None,
                selection_autoscroll_deadline: None,
                selection_highlight_clear_deadline: state.selection_highlight_clear_deadline,
            })
            &&& state.selection is Some ==> state.selection->0.in_progress() == !complete
        }),
{
}

/// What touches only the selection leaves the rest of the program alone.
pub proof fn selection_is_set_apart(before: App, after: App)
    requires
        App::only_selection_differs(before, after),
    ensures
        after.layout == before.layout,
        after.terminals == before.terminals,
        after.schedule == before.schedule,
        after.suppressed_repeat_keys == before.suppressed_repeat_keys,
        after.terminal_runtimes == before.terminal_runtimes,
        after.terminal_runtime_shutdowns == before.terminal_runtime_shutdowns,
{
}

} // verus!
