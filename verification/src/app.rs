//! The state of the running program that the decisions of this crate read and change.

use crate::layout::{Layout, PaneId};
use crate::names::NameSet;
use crate::schedule::Schedule;
use crate::selection::SelectionState;
use crate::terminal::TerminalTable;
use vstd::prelude::*;

verus! {

/// Work that a decision leaves to the rest of the program, in the order in which it
/// is to be done.
#[derive(Debug, Clone, Copy, PartialEq, Eq, Structural)]
pub enum Effect {
    /// Derive the state of the agent in a pane anew, and report what follows from it.
    RecomputeAgentState { workspace_index: usize, pane_id: PaneId },
    /// Tell the subscribers that a pane has changed.
    PaneUpdated { workspace_index: usize, pane_id: PaneId },
    /// Tell the subscribers that the tokens of a workspace have changed.
    WorkspaceTokenUpdated { workspace_index: usize },
    /// Have the session saved soon.
    ScheduleSessionSave,
    ScrollPaneUp { pane_id: PaneId, lines: usize },
    ScrollPaneDown { pane_id: PaneId, lines: usize },
    /// Let the selection in a pane reach to a place on the screen.
    UpdateSelectionCursor { pane_id: PaneId, screen_col: u16, screen_row: u16 },
}

/// A pane by its place.
#[derive(Debug, Clone, Copy, PartialEq, Eq, Structural)]
pub struct PaneRef {
    pub workspace_index: usize,
    pub pane_id: PaneId,
}

pub struct App {
    pub layout: Layout,
    pub terminals: TerminalTable,
    pub schedule: Schedule,
    pub selection: SelectionState,
    /// The keys whose repeats are dropped.
    pub suppressed_repeat_keys: NameSet,
    /// The terminals that run.
    pub terminal_runtimes: NameSet,
    /// The terminals that are to be shut down.
    pub terminal_runtime_shutdowns: Vec<String>,
    pub effects: Vec<Effect>,
}

impl App {
    /// The tables that the program keeps are in order.
    pub open spec fn wf(self) -> bool {
        self.terminals.wf()
    }

    /// Leaves it to the rest of the program to tell that some panes have changed.
    pub(crate) fn emit_panes_updated(&mut self, panes: &Vec<PaneRef>)
        ensures
            *final(self) == (App { effects: final(self).effects, ..*old(self) }),
            final(self).effects@ == old(self).effects@ + pane_updates(panes@),
    {
        assert(self.effects@ =~= old(self).effects@ + pane_updates(panes@.take(0)));
        let mut i: usize = 0;
        while i < panes.len()
            invariant
                i <= panes@.len(),
                *self == (App { effects: self.effects, ..*old(self) }),
                self.effects@ == old(self).effects@ + pane_updates(panes@.take(i as int)),
            decreases panes@.len() - i,
        {
            let pane = panes[i];
            self.effects.push(
                Effect::PaneUpdated { workspace_index: pane.workspace_index, pane_id: pane.pane_id },
            );
            i = i + 1;
            assert(self.effects@ =~= old(self).effects@ + pane_updates(panes@.take(i as int)));
        }
        assert(panes@.take(i as int) =~= panes@);
    }

    /// Leaves it to the rest of the program to tell that the tokens of some workspaces
    /// have changed.
    pub(crate) fn emit_workspace_tokens_updated(&mut self, workspaces: &Vec<usize>)
        ensures
            *final(self) == (App { effects: final(self).effects, ..*old(self) }),
            final(self).effects@ == old(self).effects@ + token_updates(workspaces@),
    {
        assert(self.effects@ =~= old(self).effects@ + token_updates(workspaces@.take(0)));
        let mut i: usize = 0;
        while i < workspaces.len()
            invariant
                i <= workspaces@.len(),
                *self == (App { effects: self.effects, ..*old(self) }),
                self.effects@ == old(self).effects@ + token_updates(workspaces@.take(i as int)),
            decreases workspaces@.len() - i,
        {
            self.effects.push(Effect::WorkspaceTokenUpdated { workspace_index: workspaces[i] });
            i = i + 1;
            assert(self.effects@ =~= old(self).effects@ + token_updates(
                workspaces@.take(i as int),
            ));
        }
        assert(workspaces@.take(i as int) =~= workspaces@);
    }
}

/// The word that some panes have changed.
pub open spec fn pane_updates(panes: Seq<PaneRef>) -> Seq<Effect> {
    panes.map_values(
        |pane: PaneRef|
            Effect::PaneUpdated { workspace_index: pane.workspace_index, pane_id: pane.pane_id },
    )
}

/// The word that the tokens of some workspaces have changed.
pub open spec fn token_updates(workspaces: Seq<usize>) -> Seq<Effect> {
    workspaces.map_values(
        |workspace_index: usize| Effect::WorkspaceTokenUpdated { workspace_index },
    )
}

} // verus!
