//! One round of the scheduled tasks.
//!
//! A round goes through the tasks in a fixed order. What a task decides, it decides
//! here; where it needs the outside world the round stops, names the task, and goes on
//! when the outcome is handed back.

use crate::app::{pane_updates, token_updates, App, PaneRef};
use crate::git_refresh::WorkspaceGitRefreshItem;
use crate::leases::{drop_effects, leases_dropped};
use crate::schedule::{due, is_due, Schedule, TerminalSize, WAIT_LEASE_POLL_INTERVAL_NS};
use crate::selection::{Rect, ScrollMetrics};
use crate::timers::reconcile_effects;
use vstd::prelude::*;

verus! {

/// The tasks, in the order in which a round goes through them.
#[derive(Debug, Clone, Copy, PartialEq, Eq, Structural)]
pub enum Task {
    /// Answer the wait lease requests that have come in, and drop the leases that have
    /// run out.
    WaitLeases,
    /// Read the size of the screen.
    ResizePoll,
    ConfigDiagnostic,
    Toast,
    /// Deliver the agent notifications that were held back.
    Notifications,
    /// Look after the managed agents.
    ManagedAgents,
    CopyFeedback,
    Animation,
    /// Scroll on under a drag that is held at an edge.
    Autoscroll,
    SelectionHighlight,
    /// Refresh the git status of the workspaces.
    GitRefresh,
    /// Look for an update of the program.
    AutoUpdate,
    /// Look for an update of the agent manifest.
    ManifestUpdate,
    SessionSave,
    /// Expire agent metadata.
    Metadata,
    /// Resume the agents that wait for it.
    AgentResume,
    AnimationTimer,
    Finished,
}

/// How far a round has come.
#[derive(Debug, Clone, Copy, PartialEq, Eq, Structural)]
pub struct ScheduledRun {
    pub now: u64,
    /// The panes are not yet where they belong.
    pub geometry_dirty: bool,
    /// The round found the screen to have another size.
    pub resized: bool,
    /// The round has changed something that shows.
    pub changed: bool,
    /// The task in hand.
    pub task: Task,
    /// The task in hand waits for the outside world.
    pub awaiting: bool,
}

impl Task {
    pub open spec fn position(self) -> nat {
        match self {
            Task::WaitLeases => 0,
            Task::ResizePoll => 1,
            Task::ConfigDiagnostic => 2,
            Task::Toast => 3,
            Task::Notifications => 4,
            Task::ManagedAgents => 5,
            Task::CopyFeedback => 6,
            Task::Animation => 7,
            Task::Autoscroll => 8,
            Task::SelectionHighlight => 9,
            Task::GitRefresh => 10,
            Task::AutoUpdate => 11,
            Task::ManifestUpdate => 12,
            Task::SessionSave => 13,
            Task::Metadata => 14,
            Task::AgentResume => 15,
            Task::AnimationTimer => 16,
            Task::Finished => 17,
        }
    }

    pub open spec fn following(self) -> Task {
        match self {
            Task::WaitLeases => Task::ResizePoll,
            Task::ResizePoll => Task::ConfigDiagnostic,
            Task::ConfigDiagnostic => Task::Toast,
            Task::Toast => Task::Notifications,
            Task::Notifications => Task::ManagedAgents,
            Task::ManagedAgents => Task::CopyFeedback,
            Task::CopyFeedback => Task::Animation,
            Task::Animation => Task::Autoscroll,
            Task::Autoscroll => Task::SelectionHighlight,
            Task::SelectionHighlight => Task::GitRefresh,
            Task::GitRefresh => Task::AutoUpdate,
            Task::AutoUpdate => Task::ManifestUpdate,
            Task::ManifestUpdate => Task::SessionSave,
            Task::SessionSave => Task::Metadata,
            Task::Metadata => Task::AgentResume,
            Task::AgentResume => Task::AnimationTimer,
            Task::AnimationTimer => Task::Finished,
            Task::Finished => Task::Finished,
        }
    }

    /// The task needs the outside world when it is due.
    pub open spec fn is_outside(self) -> bool {
        match self {
            Task::ConfigDiagnostic
            | Task::Toast
            | Task::CopyFeedback
            | Task::Animation
            | Task::SelectionHighlight
            | Task::AnimationTimer
            | Task::Finished => false,
            _ => true,
        }
    }

    fn next(self) -> (r: Task)
        ensures
            r == self.following(),
    {
        match self {
            Task::WaitLeases => Task::ResizePoll,
            Task::ResizePoll => Task::ConfigDiagnostic,
            Task::ConfigDiagnostic => Task::Toast,
            Task::Toast => Task::Notifications,
            Task::Notifications => Task::ManagedAgents,
            Task::ManagedAgents => Task::CopyFeedback,
            Task::CopyFeedback => Task::Animation,
            Task::Animation => Task::Autoscroll,
            Task::Autoscroll => Task::SelectionHighlight,
            Task::SelectionHighlight => Task::GitRefresh,
            Task::GitRefresh => Task::AutoUpdate,
            Task::AutoUpdate => Task::ManifestUpdate,
            Task::ManifestUpdate => Task::SessionSave,
            Task::SessionSave => Task::Metadata,
            Task::Metadata => Task::AgentResume,
            Task::AgentResume => Task::AnimationTimer,
            Task::AnimationTimer => Task::Finished,
            Task::Finished => Task::Finished,
        }
    }
}

impl Schedule {
    /// The moments that a round at `now` sets can be told apart from each other.
    pub open spec fn in_range(self, now: u64) -> bool {
        &&& self.git_in_range()
        &&& now + WAIT_LEASE_POLL_INTERVAL_NS <= u64::MAX
        &&& now + self.intervals.animation <= u64::MAX
        &&& now + self.intervals.resize_poll <= u64::MAX
        &&& now + self.intervals.selection_autoscroll <= u64::MAX
        &&& now + self.intervals.git_refresh <= u64::MAX
    }
}

impl ScheduledRun {
    /// The round with the task in hand done.
    pub open spec fn done(self, changed: bool) -> ScheduledRun {
        ScheduledRun {
            changed: self.changed || changed,
            task: self.task.following(),
            awaiting: false,
            ..self
        }
    }

    /// The round waits for the outcome of a task.
    pub open spec fn awaits(self, task: Task) -> bool {
        self.awaiting && self.task == task
    }

    fn finish_task(&mut self, changed: bool)
        ensures
            *final(self) == old(self).done(changed),
    {
        self.changed = self.changed || changed;
        self.task = self.task.next();
        self.awaiting = false;
    }
}

impl App {
    /// The task in hand has something to do.
    pub open spec fn task_is_due(self, run: ScheduledRun) -> bool {
        let s = self.schedule;
        match run.task {
            Task::WaitLeases => run.now >= s.next_wait_lease_poll,
            Task::ResizePoll => run.now >= s.next_resize_poll,
            Task::ConfigDiagnostic => is_due(s.config_diagnostic_deadline, run.now),
            Task::Toast => is_due(s.toast_deadline, run.now),
            Task::Notifications => is_due(s.pending_agent_notification_deadline, run.now),
            Task::ManagedAgents => is_due(s.managed_agent_deadline, run.now),
            Task::CopyFeedback => is_due(s.copy_feedback_deadline, run.now),
            Task::Animation => is_due(s.next_animation_tick, run.now),
            Task::Autoscroll => is_due(self.selection.selection_autoscroll_deadline, run.now),
            Task::SelectionHighlight => self.selection.highlight_is_over(run.now),
            Task::GitRefresh => is_due(s.git_deadline(self.has_workspaces()), run.now),
            Task::AutoUpdate => is_due(s.next_auto_update_check, run.now),
            Task::ManifestUpdate => is_due(s.next_agent_manifest_update_check, run.now),
            Task::SessionSave => is_due(s.session_save_deadline, run.now),
            Task::Metadata => is_due(s.agent_metadata_deadline, run.now),
            Task::AgentResume => !run.geometry_dirty && !run.resized,
            Task::AnimationTimer => true,
            Task::Finished => false,
        }
    }

    /// The program after a task that needs nothing from outside.
    pub open spec fn after_task(self, run: ScheduledRun) -> App {
        let s = self.schedule;
        if run.task == Task::AgentResume {
            // Agents are not resumed into panes that are about to move.
            self.with_schedule(Schedule { pending_agent_resume_deadline: None, ..s })
        } else if !self.task_is_due(run) {
            self
        } else {
            match run.task {
                Task::ConfigDiagnostic => self.with_schedule(
                    Schedule {
                        config_diagnostic_deadline: None,
                        config_diagnostic_shown: false,
                        ..s
                    },
                ),
                Task::Toast => self.with_schedule(
                    Schedule { toast_deadline: None, toast_shown: false, ..s },
                ),
                Task::CopyFeedback => self.with_schedule(
                    Schedule { copy_feedback_deadline: None, copy_feedback_shown: false, ..s },
                ),
                Task::Animation => self.with_schedule(
                    Schedule {
                        spinner_tick: s.spinner_tick.wrapping_add(1),
                        next_animation_tick: Some((run.now + s.intervals.animation) as u64),
                        ..s
                    },
                ),
                Task::SelectionHighlight => App {
                    selection: self.selection.highlight_cleared(run.now),
                    ..self
                },
                Task::AnimationTimer => self.with_schedule(
                    Schedule {
                        next_animation_tick: self.animation_tick(run.now, s.intervals.animation),
                        ..s
                    },
                ),
                _ => self,
            }
        }
    }

    /// A task that needs nothing from outside has changed something that shows.
    pub open spec fn task_shows(self, run: ScheduledRun) -> bool {
        match run.task {
            Task::ConfigDiagnostic | Task::Toast | Task::CopyFeedback | Task::Animation =>
                self.task_is_due(run),
            Task::SelectionHighlight => self.task_is_due(run) && (
            self.selection.selection matches Some(selection) && !selection.in_progress()),
            _ => false,
        }
    }

    /// The program and the round after one step.
    pub open spec fn stepped(self, run: ScheduledRun) -> (App, ScheduledRun) {
        if run.task.is_outside() && self.task_is_due(run) {
            (self, ScheduledRun { awaiting: true, ..run })
        } else {
            (self.after_task(run), run.done(self.task_shows(run)))
        }
    }

    /// The program and the round where the round stops: when it needs the outside
    /// world, or at its end.
    pub open spec fn settled(self, run: ScheduledRun) -> (App, ScheduledRun)
        decreases Task::Finished.position() - run.task.position(),
    {
        if run.awaiting || run.task == Task::Finished {
            (self, run)
        } else {
            let (app, next) = self.stepped(run);
            if next.awaiting {
                (app, next)
            } else {
                app.settled(next)
            }
        }
    }

    /// Begins a round of the scheduled tasks at `now`.
    pub fn begin_scheduled_tasks(&mut self, now: u64, geometry_dirty: bool) -> (run: ScheduledRun)
        requires
            old(self).wf(),
            old(self).schedule.in_range(now),
        ensures
            final(self).wf(),
            *final(self) == old(self).with_schedule(
                Schedule {
                    next_animation_tick: old(self).animation_tick(
                        now,
                        old(self).schedule.intervals.animation,
                    ),
                    ..old(self).schedule
                },
            ),
            run == (ScheduledRun {
                now,
                geometry_dirty,
                resized: false,
                changed: false,
                task: Task::WaitLeases,
                awaiting: false,
            }),
    {
        self.sync_animation_timer(now);
        ScheduledRun {
            now,
            geometry_dirty,
            resized: false,
            changed: false,
            task: Task::WaitLeases,
            awaiting: false,
        }
    }

    /// Goes on with a round. Gives the task that needs the outside world, or nothing
    /// when the round is over.
    pub fn handle_scheduled_tasks(&mut self, run: &mut ScheduledRun) -> (r: Option<Task>)
        requires
            old(self).wf(),
            old(self).schedule.in_range(old(run).now),
            !old(run).awaiting,
        ensures
            final(self).wf(),
            final(self).schedule.in_range(final(run).now),
            (*final(self), *final(run)) == old(self).settled(*old(run)),
            match r {
                Some(task) => final(run).awaits(task) && task.is_outside()
                    && final(self).task_is_due(*final(run)),
                None => final(run).task == Task::Finished && !final(run).awaiting,
            },
    {
        while run.task != Task::Finished
            invariant
                self.wf(),
                self.schedule.in_range(run.now),
                !run.awaiting,
                self.settled(*run) == old(self).settled(*old(run)),
            decreases Task::Finished.position() - run.task.position(),
        {
            let ghost app = *self;
            let ghost before = *run;
            self.step_scheduled_task(run);
            proof {
                assert((*self, *run) == app.stepped(before));
                assert(app.settled(before) == if run.awaiting {
                    (*self, *run)
                } else {
                    self.settled(*run)
                });
            }
            if run.awaiting {
                return Some(run.task);
            }
        }
        None
    }

    fn task_has_come(&self, run: &ScheduledRun) -> (r: bool)
        requires
            self.schedule.git_in_range(),
        ensures
            r == self.task_is_due(*run),
    {
        let s = &self.schedule;
        match run.task {
            Task::WaitLeases => run.now >= s.next_wait_lease_poll,
            Task::ResizePoll => run.now >= s.next_resize_poll,
            Task::ConfigDiagnostic => due(s.config_diagnostic_deadline, run.now),
            Task::Toast => due(s.toast_deadline, run.now),
            Task::Notifications => due(s.pending_agent_notification_deadline, run.now),
            Task::ManagedAgents => due(s.managed_agent_deadline, run.now),
            Task::CopyFeedback => due(s.copy_feedback_deadline, run.now),
            Task::Animation => due(s.next_animation_tick, run.now),
            Task::Autoscroll => due(self.selection.selection_autoscroll_deadline, run.now),
            Task::SelectionHighlight => due(
                self.selection.selection_highlight_clear_deadline,
                run.now,
            ),
            Task::GitRefresh => self.git_status_refresh_is_due(run.now),
            Task::AutoUpdate => due(s.next_auto_update_check, run.now),
            Task::ManifestUpdate => due(s.next_agent_manifest_update_check, run.now),
            Task::SessionSave => due(s.session_save_deadline, run.now),
            Task::Metadata => due(s.agent_metadata_deadline, run.now),
            Task::AgentResume => !run.geometry_dirty && !run.resized,
            Task::AnimationTimer => true,
            Task::Finished => false,
        }
    }

    fn step_scheduled_task(&mut self, run: &mut ScheduledRun)
        requires
            old(self).wf(),
            old(self).schedule.in_range(old(run).now),
            !old(run).awaiting,
        ensures
            final(self).wf(),
            final(self).schedule.in_range(final(run).now),
            (*final(self), *final(run)) == old(self).stepped(*old(run)),
    {
        let due = self.task_has_come(run);
        let mut changed = false;
        match run.task {
            Task::ConfigDiagnostic => {
                if due {
                    self.schedule.config_diagnostic_deadline = None;
                    self.schedule.config_diagnostic_shown = false;
                    changed = true;
                }
            },
            Task::Toast => {
                if due {
                    self.schedule.toast_deadline = None;
                    self.schedule.toast_shown = false;
                    changed = true;
                }
            },
            Task::CopyFeedback => {
                if due {
                    self.schedule.copy_feedback_deadline = None;
                    self.schedule.copy_feedback_shown = false;
                    changed = true;
                }
            },
            Task::Animation => {
                if due {
                    self.schedule.spinner_tick = self.schedule.spinner_tick.wrapping_add(1);
                    self.schedule.next_animation_tick = Some(
                        run.now + self.schedule.intervals.animation,
                    );
                    changed = true;
                }
            },
            Task::SelectionHighlight => {
                changed = self.clear_due_selection_highlight(run.now);
            },
            Task::AnimationTimer => {
                self.sync_animation_timer(run.now);
            },
            Task::AgentResume => {
                if due {
                    run.awaiting = true;
                    return;
                }
                self.schedule.pending_agent_resume_deadline = None;
            },
            Task::Finished => {},
            _ => {
                if due {
                    run.awaiting = true;
                    return;
                }
            },
        }
        run.finish_task(changed);
    }

    /// The wait lease requests that had come in are answered. Drops the leases that have
    /// run out.
    pub fn wait_leases_polled(
        &mut self,
        run: &mut ScheduledRun,
        requests_changed: bool,
        clock: &Result<u64, String>,
    )
        requires
            old(self).wf(),
            old(self).schedule.in_range(old(run).now),
            old(run).awaits(Task::WaitLeases),
        ensures
            final(self).wf(),
            final(self).schedule.in_range(final(run).now),
            final(self).schedule == (Schedule {
                next_wait_lease_poll: (old(run).now + WAIT_LEASE_POLL_INTERVAL_NS) as u64,
                ..old(self).schedule
            }),
            *final(self) == (App {
                terminals: final(self).terminals,
                effects: final(self).effects,
                schedule: final(self).schedule,
                ..*old(self)
            }),
            match clock {
                Ok(now_ms) => {
                    let expired = old(self).world().expired_panes(*now_ms);
                    &&& final(self).terminals@ == leases_dropped(old(self).terminals@, expired)
                    &&& final(self).effects@ == old(self).effects@ + drop_effects(expired)
                    &&& *final(run) == old(run).done(requests_changed || expired.len() > 0)
                },
                Err(_) => {
                    &&& final(self).terminals == old(self).terminals
                    &&& final(self).effects == old(self).effects
                    &&& *final(run) == old(run).done(requests_changed)
                },
            },
    {
        let expired = self.expire_wait_leases(clock);
        self.schedule.next_wait_lease_poll = run.now + WAIT_LEASE_POLL_INTERVAL_NS;
        run.finish_task(requests_changed || expired);
    }

    /// The size of the screen is read, if it could be.
    pub fn terminal_size_read(&mut self, run: &mut ScheduledRun, size: Option<TerminalSize>)
        requires
            old(self).schedule.in_range(old(run).now),
            old(run).awaits(Task::ResizePoll),
        ensures
            final(self).schedule.in_range(final(run).now),
            *final(self) == old(self).with_schedule(
                Schedule {
                    next_resize_poll: (old(run).now
                        + old(self).schedule.intervals.resize_poll) as u64,
                    last_terminal_size: if size is Some {
                        size
                    } else {
                        old(self).schedule.last_terminal_size
                    },
                    ..old(self).schedule
                },
            ),
            ({
                let resized = size is Some && old(self).schedule.last_terminal_size != size;
                *final(run) == (ScheduledRun { resized, ..old(run).done(resized) })
            }),
    {
        let resized = self.handle_resize_poll(size);
        self.schedule.next_resize_poll = run.now + self.schedule.intervals.resize_poll;
        run.resized = resized;
        run.finish_task(resized);
    }

    /// The agent notifications that were held back are delivered; whether there were
    /// any.
    pub fn notifications_delivered(&mut self, run: &mut ScheduledRun, any: bool)
        requires
            old(run).awaits(Task::Notifications),
        ensures
            *final(self) == *old(self),
            *final(run) == old(run).done(any),
    {
        run.finish_task(any);
    }

    /// The managed agents are looked after, which changed some panes.
    pub fn finish_managed_agents(&mut self, run: &mut ScheduledRun, panes: &Vec<PaneRef>)
        requires
            old(run).awaits(Task::ManagedAgents),
        ensures
            *final(self) == (App { effects: final(self).effects, ..*old(self) }),
            final(self).effects@ == old(self).effects@ + reconcile_effects(panes@),
            *final(run) == old(run).done(panes@.len() > 0),
    {
        let changed = self.managed_agents_reconciled(panes);
        run.finish_task(changed);
    }

    /// A tick of the scroll timer, with what is known of the pane.
    pub fn finish_autoscroll(
        &mut self,
        run: &mut ScheduledRun,
        current_rect: Option<Rect>,
        metrics: Option<ScrollMetrics>,
    )
        requires
            old(self).schedule.in_range(old(run).now),
            old(run).awaits(Task::Autoscroll),
        ensures
            App::only_selection_differs(*old(self), *final(self)),
            final(self).selection == old(self).selection.ticked(
                (old(run).now + old(self).schedule.intervals.selection_autoscroll) as u64,
                current_rect,
                metrics,
            ),
            final(self).effects@ == old(self).effects@ + old(self).selection.tick_effects(
                current_rect,
                metrics,
            ),
            *final(run) == old(run).done(true),
    {
        self.tick_selection_autoscroll(run.now, current_rect, metrics);
        run.finish_task(true);
    }

    /// The items of the git status refresh are collected. Says whether to look at them.
    pub fn finish_git_refresh(
        &mut self,
        run: &mut ScheduledRun,
        items: &Vec<WorkspaceGitRefreshItem>,
    ) -> (r: bool)
        requires
            old(self).schedule.in_range(old(run).now),
            old(run).awaits(Task::GitRefresh),
        ensures
            final(self).schedule.in_range(final(run).now),
            r == (items@.len() > 0),
            *final(self) == old(self).with_schedule(
                Schedule {
                    git: old(self).schedule.git.started(old(run).now, items@.len() > 0),
                    ..old(self).schedule
                },
            ),
            *final(run) == old(run).done(false),
    {
        let start = self.start_git_status_refresh(run.now, items);
        run.finish_task(false);
        start
    }

    /// It is known whether updates of the program are wanted. `now` is read when the
    /// check is run. Says whether to look for one.
    pub fn finish_auto_update(&mut self, run: &mut ScheduledRun, enabled: bool, now: u64) -> (r:
        bool)
        requires
            enabled ==> now + old(self).schedule.intervals.auto_update_check <= u64::MAX,
            old(run).awaits(Task::AutoUpdate),
        ensures
            r == (enabled && !old(self).schedule.update_available),
            *final(self) == old(self).with_schedule(
                Schedule {
                    next_auto_update_check: if r {
                        Some((now + old(self).schedule.intervals.auto_update_check) as u64)
                    } else {
                        None
                    },
                    ..old(self).schedule
                },
            ),
            *final(run) == old(run).done(false),
    {
        let start = self.run_auto_update_check(enabled, now);
        run.finish_task(false);
        start
    }

    /// It is known whether updates of the agent manifest are wanted. `now` is read when
    /// the check is run. Says whether to look for one.
    pub fn finish_manifest_update(
        &mut self,
        run: &mut ScheduledRun,
        enabled: bool,
        now: u64,
    ) -> (r: bool)
        requires
            enabled ==> now + old(self).schedule.intervals.auto_update_check <= u64::MAX,
            old(run).awaits(Task::ManifestUpdate),
        ensures
            r == enabled,
            *final(self) == old(self).with_schedule(
                Schedule {
                    next_agent_manifest_update_check: if enabled {
                        Some((now + old(self).schedule.intervals.auto_update_check) as u64)
                    } else {
                        None
                    },
                    ..old(self).schedule
                },
            ),
            *final(run) == old(run).done(false),
    {
        let start = self.run_agent_manifest_update_check(enabled, now);
        run.finish_task(false);
        start
    }

    /// The session is being saved. `deadline` is when it is to be saved next, if that is
    /// set already.
    pub fn finish_session_save(&mut self, run: &mut ScheduledRun, deadline: Option<u64>)
        requires
            old(run).awaits(Task::SessionSave),
        ensures
            *final(self) == old(self).with_schedule(
                Schedule { session_save_deadline: deadline, ..old(self).schedule },
            ),
            *final(run) == old(run).done(false),
    {
        self.schedule.session_save_deadline = deadline;
        run.finish_task(false);
    }

    /// Agent metadata is expired, which took tokens from some panes and workspaces.
    pub fn finish_metadata(
        &mut self,
        run: &mut ScheduledRun,
        panes: &Vec<PaneRef>,
        workspaces: &Vec<usize>,
        next_expiry: Option<u64>,
    )
        requires
            old(run).awaits(Task::Metadata),
        ensures
            *final(self) == (App {
                effects: final(self).effects,
                ..old(self).with_schedule(
                    Schedule { agent_metadata_deadline: next_expiry, ..old(self).schedule },
                )
            }),
            final(self).effects@ == old(self).effects@ + pane_updates(panes@) + token_updates(
                workspaces@,
            ),
            *final(run) == old(run).done(true),
    {
        self.expire_metadata_at(panes, workspaces, next_expiry);
        run.finish_task(true);
    }

    /// The agents that were due are resumed; whether there were any. `deadline` is when
    /// the next are due.
    pub fn finish_agent_resume(
        &mut self,
        run: &mut ScheduledRun,
        any: bool,
        deadline: Option<u64>,
    )
        requires
            old(run).awaits(Task::AgentResume),
        ensures
            *final(self) == old(self).with_schedule(
                Schedule { pending_agent_resume_deadline: deadline, ..old(self).schedule },
            ),
            *final(run) == old(run).done(any),
    {
        self.schedule.pending_agent_resume_deadline = deadline;
        run.finish_task(any);
    }
}

} // verus!
