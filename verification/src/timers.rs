//! The timers of the program: what each does when its moment has come.

use crate::app::{pane_updates, token_updates, App, Effect, PaneRef};
use crate::git_refresh::WorkspaceGitRefreshItem;
use crate::layout_laws::{has_place, working_pane_is_seen};
use crate::schedule::{due, is_due, Schedule, TerminalSize};
use crate::terminal::AgentState;
use vstd::prelude::*;

verus! {

impl App {
    /// The program with another schedule.
    pub open spec fn with_schedule(self, schedule: Schedule) -> App {
        App { schedule, ..self }
    }

    /// An agent is at work in a pane that is on the screen.
    pub open spec fn is_animated(self) -> bool {
        self.layout@.has_working_pane(self.terminals@)
    }

    /// When the animation goes on: a tick that is set stays set while an agent is at
    /// work, and is dropped when none is.
    pub open spec fn animation_tick(self, now: u64, interval: u64) -> Option<u64> {
        if !self.is_animated() {
            None
        } else if self.schedule.next_animation_tick is Some {
            self.schedule.next_animation_tick
        } else {
            Some((now + interval) as u64)
        }
    }

    fn agent_panel_has_animation(&self) -> (r: bool)
        requires
            self.wf(),
        ensures
            r == self.is_animated(),
    {
        self.layout.has_working_pane(&self.terminals)
    }

    pub fn sync_animation_timer(&mut self, now: u64)
        requires
            old(self).wf(),
            old(self).is_animated() ==> now + old(self).schedule.intervals.animation <= u64::MAX,
        ensures
            *final(self) == old(self).with_schedule(
                Schedule {
                    next_animation_tick: old(self).animation_tick(
                        now,
                        old(self).schedule.intervals.animation,
                    ),
                    ..old(self).schedule
                },
            ),
    {
        self.sync_animation_timer_with_interval(now, self.schedule.intervals.animation)
    }

    pub fn sync_headless_animation_timer(&mut self, now: u64)
        requires
            old(self).wf(),
            old(self).is_animated() ==> now + old(self).schedule.intervals.headless_animation
                <= u64::MAX,
        ensures
            *final(self) == old(self).with_schedule(
                Schedule {
                    next_animation_tick: old(self).animation_tick(
                        now,
                        old(self).schedule.intervals.headless_animation,
                    ),
                    ..old(self).schedule
                },
            ),
    {
        self.sync_animation_timer_with_interval(now, self.schedule.intervals.headless_animation)
    }

    fn sync_animation_timer_with_interval(&mut self, now: u64, interval: u64)
        requires
            old(self).wf(),
            old(self).is_animated() ==> now + interval <= u64::MAX,
        ensures
            *final(self) == old(self).with_schedule(
                Schedule {
                    next_animation_tick: old(self).animation_tick(now, interval),
                    ..old(self).schedule
                },
            ),
    {
        if self.agent_panel_has_animation() {
            if self.schedule.next_animation_tick.is_none() {
                self.schedule.next_animation_tick = Some(now + interval);
            }
        } else {
            self.schedule.next_animation_tick = None;
        }
    }

    /// Takes note of the size of the screen, as far as it could be read. Says whether it
    /// has changed.
    pub fn handle_resize_poll(&mut self, size: Option<TerminalSize>) -> (r: bool)
        ensures
            r == (size is Some && old(self).schedule.last_terminal_size != size),
            *final(self) == if size is Some {
                old(self).with_schedule(
                    Schedule { last_terminal_size: size, ..old(self).schedule },
                )
            } else {
                *old(self)
            },
    {
        let size = match size {
            Some(size) => size,
            None => {
                return false;
            },
        };
        let unchanged = match self.schedule.last_terminal_size {
            Some(last) => last == size,
            None => false,
        };
        if unchanged {
            return false;
        }
        self.schedule.last_terminal_size = Some(size);
        true
    }

    /// Sets the time of the next look for an update of the program. Says whether to look
    /// now: not where that is switched off, nor where an update has been found already.
    pub fn run_auto_update_check(&mut self, enabled: bool, now: u64) -> (r: bool)
        requires
            enabled ==> now + old(self).schedule.intervals.auto_update_check <= u64::MAX,
        ensures
            r == (enabled && !old(self).schedule.update_available),
            *final(self) == old(self).with_schedule(
                Schedule {
                    next_auto_update_check: if r {
                        Some((now + old(self).schedule.intervals.auto_update_check) as u64)
                    } else {
                        None
                    },
                    ..old(self).schedule
                },
            ),
    {
        if !enabled || self.schedule.update_available {
            self.schedule.next_auto_update_check = None;
            return false;
        }
        self.schedule.next_auto_update_check = Some(
            now + self.schedule.intervals.auto_update_check,
        );
        true
    }

    /// Sets the time of the next look for an update of the agent manifest. Says whether
    /// to look now.
    pub fn run_agent_manifest_update_check(&mut self, enabled: bool, now: u64) -> (r: bool)
        requires
            enabled ==> now + old(self).schedule.intervals.auto_update_check <= u64::MAX,
        ensures
            r == enabled,
            *final(self) == old(self).with_schedule(
                Schedule {
                    next_agent_manifest_update_check: if enabled {
                        Some((now + old(self).schedule.intervals.auto_update_check) as u64)
                    } else {
                        None
                    },
                    ..old(self).schedule
                },
            ),
    {
        if !enabled {
            self.schedule.next_agent_manifest_update_check = None;
            return false;
        }
        self.schedule.next_agent_manifest_update_check = Some(
            now + self.schedule.intervals.auto_update_check,
        );
        true
    }

    /// Whether it is time to refresh the git status of the workspaces.
    pub fn git_status_refresh_is_due(&self, now: u64) -> (r: bool)
        requires
            self.schedule.git_in_range(),
        ensures
            r == is_due(self.schedule.git_deadline(self.has_workspaces()), now),
    {
        due(self.git_refresh_deadline(), now)
    }

    /// Starts a git status refresh of the given items, which is due. Says whether there is
    /// anything to look at; if there is not, the refresh is over at once.
    pub fn start_git_status_refresh(
        &mut self,
        now: u64,
        items: &Vec<WorkspaceGitRefreshItem>,
    ) -> (r: bool)
        ensures
            r == (items@.len() > 0),
            *final(self) == old(self).with_schedule(
                Schedule {
                    git: old(self).schedule.git.started(now, items@.len() > 0),
                    ..old(self).schedule
                },
            ),
    {
        if items.len() == 0 {
            self.schedule.git.last_refresh = now;
            return false;
        }
        self.schedule.git.in_flight = true;
        true
    }

    /// Sets the moment at which the next piece of agent metadata runs out.
    pub fn sync_agent_metadata_deadline(&mut self, next_expiry: Option<u64>)
        ensures
            *final(self) == old(self).with_schedule(
                Schedule { agent_metadata_deadline: next_expiry, ..old(self).schedule },
            ),
    {
        self.schedule.agent_metadata_deadline = next_expiry;
    }

    /// The moment at which metadata was to run out, if that has come. Metadata is
    /// expired exactly when there is one.
    pub fn due_metadata_deadline(&self, now: u64) -> (r: Option<u64>)
        ensures
            r == if is_due(self.schedule.agent_metadata_deadline, now) {
                self.schedule.agent_metadata_deadline
            } else {
                None::<u64>
            },
    {
        if due(self.schedule.agent_metadata_deadline, now) {
            self.schedule.agent_metadata_deadline
        } else {
            None
        }
    }

    /// Metadata has been expired: tells which panes and workspaces lost tokens, and sets
    /// the moment at which the next piece runs out.
    pub fn expire_metadata_at(
        &mut self,
        panes: &Vec<PaneRef>,
        workspaces: &Vec<usize>,
        next_expiry: Option<u64>,
    )
        ensures
            *final(self) == (App {
                effects: final(self).effects,
                ..old(self).with_schedule(
                    Schedule { agent_metadata_deadline: next_expiry, ..old(self).schedule },
                )
            }),
            final(self).effects@ == old(self).effects@ + pane_updates(panes@) + token_updates(
                workspaces@,
            ),
    {
        self.emit_panes_updated(panes);
        self.emit_workspace_tokens_updated(workspaces);
        self.sync_agent_metadata_deadline(next_expiry);
    }

    /// Managed agents have been looked after: tells which panes changed by it, and has
    /// that saved. Says whether there were any.
    pub fn managed_agents_reconciled(&mut self, panes: &Vec<PaneRef>) -> (r: bool)
        ensures
            r == (panes@.len() > 0),
            *final(self) == (App { effects: final(self).effects, ..*old(self) }),
            final(self).effects@ == old(self).effects@ + reconcile_effects(panes@),
    {
        if panes.len() == 0 {
            assert(self.effects@ =~= old(self).effects@ + reconcile_effects(panes@));
            return false;
        }
        self.emit_panes_updated(panes);
        self.effects.push(Effect::ScheduleSessionSave);
        assert(self.effects@ =~= old(self).effects@ + reconcile_effects(panes@));
        true
    }
}

/// The work that follows when managed agents have changed some panes.
pub open spec fn reconcile_effects(panes: Seq<PaneRef>) -> Seq<Effect> {
    if panes.len() == 0 {
        Seq::empty()
    } else {
        pane_updates(panes).push(Effect::ScheduleSessionSave)
    }
}

/// While an agent is at work the animation timer is set, and a tick that is set is
/// neither put off nor brought forward by setting the timer again.
pub proof fn animation_timer_is_stable(app: App, now: u64, later: u64, interval: u64)
    ensures
        app.animation_tick(now, interval) is Some <==> app.is_animated(),
        ({
            let tick = app.animation_tick(now, interval);
            let set = app.with_schedule(
                Schedule { next_animation_tick: tick, ..app.schedule },
            );
            set.animation_tick(later, interval) == tick
        }),
{
}

/// The animation runs exactly while some pane shows an agent at work, and its first tick
/// comes one interval on.
pub proof fn animation_follows_the_agents(app: App, now: u64, interval: u64)
    requires
        app.layout@.workspaces.len() <= usize::MAX,
        now + interval <= u64::MAX,
    ensures
        ({
            let workspaces = app.layout@.workspaces;
            let at_work = exists|w: int, t: int, p: int|
                {
                    &&& #[trigger] has_place(workspaces, w, t, p)
                    &&& app.terminals@.contains_key(workspaces[w][t][p].terminal_id)
                    &&& app.terminals@[workspaces[w][t][p].terminal_id].state == AgentState::Working
                };
            let tick = app.animation_tick(now, interval);
            &&& !at_work ==> tick is None
            &&& at_work && app.schedule.next_animation_tick is Some ==> tick
                == app.schedule.next_animation_tick
            &&& at_work && app.schedule.next_animation_tick is None ==> tick is Some && tick->0
                == now + interval
        }),
{
    working_pane_is_seen(app.layout@, app.terminals@);
}

/// Setting another schedule changes nothing else.
pub proof fn schedule_is_set_apart(app: App, schedule: Schedule)
    ensures
        app.with_schedule(schedule).schedule == schedule,
        app.with_schedule(schedule).layout == app.layout,
        app.with_schedule(schedule).terminals == app.terminals,
        app.with_schedule(schedule).selection == app.selection,
        app.with_schedule(schedule).effects == app.effects,
        app.with_schedule(schedule).suppressed_repeat_keys == app.suppressed_repeat_keys,
        app.with_schedule(schedule).terminal_runtimes == app.terminal_runtimes,
        app.with_schedule(schedule).terminal_runtime_shutdowns == app.terminal_runtime_shutdowns,
        app.has_workspaces() <==> app.layout.workspaces@.len() != 0,
{
}

/// Readers are told of every pane and every workspace once, in their order. Where managed
/// agents changed any pane the session is saved as well, after that.
pub proof fn changes_are_told_in_order(panes: Seq<PaneRef>, workspaces: Seq<usize>)
    ensures
        pane_updates(panes).len() == panes.len(),
        forall|i: int|
            0 <= i < panes.len() ==> #[trigger] pane_updates(panes)[i] == (Effect::PaneUpdated {
                workspace_index: panes[i].workspace_index,
                pane_id: panes[i].pane_id,
            }),
        token_updates(workspaces).len() == workspaces.len(),
        forall|i: int|
            0 <= i < workspaces.len() ==> #[trigger] token_updates(workspaces)[i] == (
            Effect::WorkspaceTokenUpdated { workspace_index: workspaces[i] }),
        panes.len() == 0 ==> reconcile_effects(panes).len() == 0,
        panes.len() > 0 ==> {
            &&& reconcile_effects(panes).len() == panes.len() + 1
            &&& reconcile_effects(panes).take(panes.len() as int) == pane_updates(panes)
            &&& reconcile_effects(panes).last() == Effect::ScheduleSessionSave
        },
{
    if panes.len() > 0 {
        assert(reconcile_effects(panes).take(panes.len() as int) =~= pane_updates(panes));
    }
}

} // verus!
