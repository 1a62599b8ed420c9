//! What holds of every round of the scheduled tasks.

use crate::app::App;
use crate::schedule::{is_due, is_earliest, Schedule};
use crate::selection::{SelectionPhase, SelectionState};
use crate::tasks::{ScheduledRun, Task};
use vstd::prelude::*;

verus! {

impl App {
    /// Nothing that the program wakes up for has come.
    pub open spec fn is_quiet(self, now: u64) -> bool {
        let wakeups = self.wakeups(now, false, true, true);
        forall|i: int| 0 <= i < wakeups.len() ==> !is_due(#[trigger] wakeups[i], now)
    }
}

/// A round goes through its tasks in order and comes to each of them once. It never
/// takes back that something has changed, and as long as it does not stop for the
/// outside world it touches nothing but timers and what they show.
pub proof fn round_goes_forward(app: App, run: ScheduledRun)
    ensures
        ({
            let (after, next) = app.settled(run);
            &&& next.task.position() >= run.task.position()
            &&& run.changed ==> next.changed
            &&& next.now == run.now
            &&& next.geometry_dirty == run.geometry_dirty
            &&& next.resized == run.resized
            &&& after == (App {
                schedule: after.schedule,
                selection: after.selection,
                ..app
            })
            &&& after.schedule.intervals == app.schedule.intervals
            &&& after.schedule.git == app.schedule.git
        }),
        forall|changed: bool|
            run.task != Task::Finished ==> #[trigger] run.done(changed).task.position()
                > run.task.position(),
    decreases Task::Finished.position() - run.task.position(),
{
    if !run.awaiting && run.task != Task::Finished {
        let (after, next) = app.stepped(run);
        if !next.awaiting {
            round_goes_forward(after, next);
        }
    }
}

/// A round stops only for a task that is due and needs the outside world, or at its
/// end.
pub proof fn round_stops_for_a_reason(app: App, run: ScheduledRun)
    requires
        !run.awaiting,
    ensures
        ({
            let (after, next) = app.settled(run);
            if next.awaiting {
                next.task.is_outside() && after.task_is_due(next)
            } else {
                next.task == Task::Finished
            }
        }),
    decreases Task::Finished.position() - run.task.position(),
{
    if run.task != Task::Finished {
        let (after, next) = app.stepped(run);
        if !next.awaiting {
            round_stops_for_a_reason(after, next);
        }
    }
}

/// While the panes are about to move no agent is resumed, and a resumption that was set
/// is called off.
pub proof fn agents_wait_for_the_panes(app: App, run: ScheduledRun)
    requires
        run.geometry_dirty || run.resized,
        !run.awaiting,
    ensures
        !app.settled(run).1.awaits(Task::AgentResume),
        app.settled(run).1.task == Task::Finished && run.task.position()
            <= Task::AgentResume.position() ==> app.settled(
            run,
        ).0.schedule.pending_agent_resume_deadline is None,
    decreases Task::Finished.position() - run.task.position(),
{
    if run.task != Task::Finished {
        let (after, next) = app.stepped(run);
        if !next.awaiting {
            agents_wait_for_the_panes(after, next);
            if run.task == Task::AgentResume {
                resume_stays_off(after, next);
            }
        }
    }
}

proof fn resume_stays_off(app: App, run: ScheduledRun)
    requires
        !run.awaiting,
        run.task.position() > Task::AgentResume.position(),
    ensures
        app.settled(run).0.schedule.pending_agent_resume_deadline
            == app.schedule.pending_agent_resume_deadline,
    decreases Task::Finished.position() - run.task.position(),
{
    if run.task != Task::Finished {
        let (after, next) = app.stepped(run);
        resume_stays_off(after, next);
    }
}

proof fn quiet_task_is_not_due(app: App, run: ScheduledRun)
    requires
        app.is_quiet(run.now),
        run.task.position() < Task::AgentResume.position(),
    ensures
        !app.task_is_due(run),
{
    let wakeups = app.wakeups(run.now, false, true, true);
    assert(wakeups.len() == 17);
    assert(!is_due(wakeups[0], run.now));
    assert(!is_due(wakeups[1], run.now));
    assert(!is_due(wakeups[2], run.now));
    assert(!is_due(wakeups[3], run.now));
    assert(!is_due(wakeups[4], run.now));
    assert(!is_due(wakeups[5], run.now));
    assert(!is_due(wakeups[6], run.now));
    assert(!is_due(wakeups[7], run.now));
    assert(!is_due(wakeups[8], run.now));
    assert(!is_due(wakeups[9], run.now));
    assert(!is_due(wakeups[10], run.now));
    assert(!is_due(wakeups[11], run.now));
    assert(!is_due(wakeups[13], run.now));
    assert(!is_due(wakeups[14], run.now));
    assert(!is_due(wakeups[15], run.now));
}

/// Where nothing has come that the program wakes up for, a round does nothing until it
/// comes to the agents that wait to be resumed.
pub proof fn quiet_round_does_nothing(app: App, run: ScheduledRun)
    requires
        app.is_quiet(run.now),
        run.task.position() <= Task::AgentResume.position(),
        !run.awaiting,
    ensures
        app.settled(run) == app.settled(ScheduledRun { task: Task::AgentResume, ..run }),
        !run.geometry_dirty && !run.resized ==> app.settled(run) == (
            app,
            ScheduledRun { task: Task::AgentResume, awaiting: true, ..run },
        ),
        run.geometry_dirty || run.resized ==> app.settled(run) == (
            app.with_schedule(
                Schedule {
                    pending_agent_resume_deadline: None,
                    next_animation_tick: app.animation_tick(
                        run.now,
                        app.schedule.intervals.animation,
                    ),
                    ..app.schedule
                },
            ),
            ScheduledRun { task: Task::Finished, ..run },
        ),
    decreases Task::Finished.position() - run.task.position(),
{
    let (after, next) = app.stepped(run);
    if run.task == Task::AgentResume {
        reveal_with_fuel(App::settled, 4);
    } else {
        quiet_task_is_not_due(app, run);
        assert(app.after_task(run) == app);
        assert(after == app);
        quiet_round_does_nothing(app, next);
    }
}

/// A loop that sleeps until its deadline sleeps past nothing: before the deadline
/// nothing has come.
pub proof fn nothing_is_slept_past(
    app: App,
    now: u64,
    needs_render: bool,
    deadline: Option<u64>,
    moment: u64,
)
    requires
        is_earliest(deadline, app.wakeups(now, needs_render, true, true)),
        deadline matches Some(deadline) ==> moment < deadline,
    ensures
        app.is_quiet(moment),
{
    let wakeups = app.wakeups(now, needs_render, true, true);
    let others = app.wakeups(moment, false, true, true);
    assert forall|i: int| 0 <= i < others.len() implies !is_due(#[trigger] others[i], moment) by {
        if i < 16 {
            assert(others[i] == wakeups[i]);
        }
    }
}

/// The moment for which a task is set. The agents that wait to be resumed, and the timer
/// of the animation, are looked after in every round.
pub open spec fn set_for(app: App, task: Task) -> Option<u64> {
    match task {
        Task::WaitLeases => Some(app.schedule.next_wait_lease_poll),
        Task::ResizePoll => Some(app.schedule.next_resize_poll),
        Task::ConfigDiagnostic => app.schedule.config_diagnostic_deadline,
        Task::Toast => app.schedule.toast_deadline,
        Task::Notifications => app.schedule.pending_agent_notification_deadline,
        Task::ManagedAgents => app.schedule.managed_agent_deadline,
        Task::CopyFeedback => app.schedule.copy_feedback_deadline,
        Task::Animation => app.schedule.next_animation_tick,
        Task::Autoscroll => app.selection.selection_autoscroll_deadline,
        Task::SelectionHighlight => app.selection.selection_highlight_clear_deadline,
        Task::GitRefresh => if !app.schedule.git.in_flight && app.layout.workspaces@.len() > 0 {
            Some((app.schedule.git.last_refresh + app.schedule.intervals.git_refresh) as u64)
        } else {
            None
        },
        Task::AutoUpdate => app.schedule.next_auto_update_check,
        Task::ManifestUpdate => app.schedule.next_agent_manifest_update_check,
        Task::SessionSave => app.schedule.session_save_deadline,
        Task::Metadata => app.schedule.agent_metadata_deadline,
        Task::AgentResume => None,
        Task::AnimationTimer => None,
        Task::Finished => None,
    }
}

/// The moment for which a task is set has come.
pub open spec fn has_come(app: App, task: Task, now: u64) -> bool {
    set_for(app, task) is Some && set_for(app, task)->0 <= now
}

/// The task that a round comes to after another.
pub open spec fn comes_after(task: Task) -> Task {
    match task {
        Task::WaitLeases => Task::ResizePoll,
        Task::ResizePoll => Task::ConfigDiagnostic,
        Task::ConfigDiagnostic => Task::Toast,
        Task::Toast => Task::Notifications,
        Task::Notifications => Task::ManagedAgents,
        Task::ManagedAgents => Task::CopyFeedback,
        Task::CopyFeedback => Task::Animation,
        Task::Animation => Task::Autoscroll,
        Task::Autoscroll => Task::SelectionHighlight,
        Task::SelectionHighlight => Task::GitRefresh,
        Task::GitRefresh => Task::AutoUpdate,
        Task::AutoUpdate => Task::ManifestUpdate,
        Task::ManifestUpdate => Task::SessionSave,
        Task::SessionSave => Task::Metadata,
        Task::Metadata => Task::AgentResume,
        Task::AgentResume => Task::AnimationTimer,
        Task::AnimationTimer => Task::Finished,
        Task::Finished => Task::Finished,
    }
}

/// A round that comes to a task for which the moment has come carries it out, whatever it
/// has changed before: it stops for it where the task reaches outside. A task whose moment
/// has not come is passed over, and nothing changes.
pub proof fn due_task_is_carried_out(app: App, run: ScheduledRun)
    requires
        !run.awaiting,
    ensures
        run.task != Task::AgentResume && run.task != Task::AnimationTimer && run.task
            != Task::Finished && !has_come(app, run.task, run.now) ==> app.stepped(run) == (app, ScheduledRun { task: comes_after(run.task), ..run }),
        match run.task {
            Task::WaitLeases
            | Task::ResizePoll
            | Task::Notifications
            | Task::ManagedAgents
            | Task::Autoscroll
            | Task::GitRefresh
            | Task::AutoUpdate
            | Task::ManifestUpdate
            | Task::SessionSave
            | Task::Metadata => has_come(app, run.task, run.now) ==> app.stepped(run) == (
                app,
                ScheduledRun { awaiting: true, ..run },
            ),
            _ => true,
        },
{
}

/// What is shown for a while is gone when its moment has come, and the animation moves on
/// by one.
pub proof fn due_display_is_updated(app: App, run: ScheduledRun)
    requires
        !run.awaiting,
        has_come(app, run.task, run.now),
    ensures
        ({
            let (after, next) = app.stepped(run);
            let shown = ScheduledRun { task: comes_after(run.task), changed: true, ..run };
            match run.task {
                Task::ConfigDiagnostic => {
                    &&& next == shown
                    &&& after == (App {
                        schedule: Schedule {
                            config_diagnostic_deadline: None,
                            config_diagnostic_shown: false,
                            ..app.schedule
                        },
                        ..app
                    })
                },
                Task::Toast => {
                    &&& next == shown
                    &&& after == (App {
                        schedule: Schedule {
                            toast_deadline: None,
                            toast_shown: false,
                            ..app.schedule
                        },
                        ..app
                    })
                },
                Task::CopyFeedback => {
                    &&& next == shown
                    &&& after == (App {
                        schedule: Schedule {
                            copy_feedback_deadline: None,
                            copy_feedback_shown: false,
                            ..app.schedule
                        },
                        ..app
                    })
                },
                Task::Animation => {
                    &&& next == shown
                    &&& after == (App {
                        schedule: Schedule {
                            spinner_tick: app.schedule.spinner_tick.wrapping_add(1),
                            next_animation_tick: Some(
                                (run.now + app.schedule.intervals.animation) as u64,
                            ),
                            ..app.schedule
                        },
                        ..app
                    })
                },
                Task::SelectionHighlight => {
                    let finished = app.selection.selection is Some
                        && app.selection.selection->0.phase == SelectionPhase::Done;
                    &&& next == (ScheduledRun {
                        task: comes_after(run.task),
                        changed: run.changed || finished,
                        ..run
                    })
                    &&& after == (App {
                        selection: SelectionState {
                            selection_highlight_clear_deadline: None,
                            selection: if finished {
                                None
                            } else {
                                app.selection.selection
                            },
                            ..app.selection
                        },
                        ..app
                    })
                },
                _ => true,
            }
        }),
{
}

/// At its end a round resumes agents unless the panes are about to move, in which case a
/// resumption that was set is called off, and it sets the timer of the animation again.
pub proof fn round_closes(app: App, run: ScheduledRun)
    requires
        !run.awaiting,
    ensures
        run.task == Task::AgentResume && !run.geometry_dirty && !run.resized ==> app.stepped(run)
            == (app, ScheduledRun { awaiting: true, ..run }),
        run.task == Task::AgentResume && (run.geometry_dirty || run.resized) ==> app.stepped(run)
            == (
            App {
                schedule: Schedule { pending_agent_resume_deadline: None, ..app.schedule },
                ..app
            },
            ScheduledRun { task: Task::AnimationTimer, ..run },
        ),
        run.task == Task::AnimationTimer ==> app.stepped(run) == (
            App {
                schedule: Schedule {
                    next_animation_tick: app.animation_tick(
                        run.now,
                        app.schedule.intervals.animation,
                    ),
                    ..app.schedule
                },
                ..app
            },
            ScheduledRun { task: Task::Finished, ..run },
        ),
{
}

/// A round goes on step by step until it stops for a task or is over.
pub proof fn round_goes_step_by_step(app: App, run: ScheduledRun)
    ensures
        run.awaiting || run.task == Task::Finished ==> app.settled(run) == (app, run),
        !run.awaiting && run.task != Task::Finished ==> app.settled(run) == {
            let (after, next) = app.stepped(run);
            after.settled(next)
        },
{
}

/// The outcome of a task is noted, and the round goes on with the next one.
pub proof fn finished_task_is_left_behind(run: ScheduledRun, changed: bool, task: Task)
    ensures
        run.done(changed) == (ScheduledRun {
            changed: run.changed || changed,
            task: comes_after(run.task),
            awaiting: false,
            ..run
        }),
        run.awaits(task) <==> run.awaiting && run.task == task,
{
}

/// A round stops for the first task that reaches outside and whose moment has come, as
/// long as nothing before it has.
pub proof fn round_stops_for_the_first_due_task(app: App, run: ScheduledRun, task: Task)
    requires
        !run.awaiting,
        run.task.position() <= task.position(),
        match task {
            Task::WaitLeases
            | Task::ResizePoll
            | Task::Notifications
            | Task::ManagedAgents
            | Task::Autoscroll
            | Task::GitRefresh
            | Task::AutoUpdate
            | Task::ManifestUpdate
            | Task::SessionSave
            | Task::Metadata => true,
            _ => false,
        },
        has_come(app, task, run.now),
        forall|earlier: Task|
            run.task.position() <= earlier.position() < task.position() ==> !(#[trigger] has_come(
                app,
                earlier,
                run.now,
            )),
    ensures
        app.settled(run) == (app, ScheduledRun { task, awaiting: true, ..run }),
    decreases task.position() - run.task.position(),
{
    due_task_is_carried_out(app, run);
    if run.task.position() < task.position() {
        assert(!has_come(app, run.task, run.now));
        let next = ScheduledRun { task: comes_after(run.task), ..run };
        assert(app.stepped(run) == (app, next));
        round_stops_for_the_first_due_task(app, next, task);
    } else {
        assert(run.task == task);
    }
}

/// A round can be begun at every moment from which the intervals can be counted.
pub proof fn round_can_begin(schedule: Schedule, now: u64)
    ensures
        schedule.in_range(now) <==> {
            &&& schedule.git.last_refresh + schedule.intervals.git_refresh <= u64::MAX
            &&& now + 100_000_000 <= u64::MAX
            &&& now + schedule.intervals.animation <= u64::MAX
            &&& now + schedule.intervals.resize_poll <= u64::MAX
            &&& now + schedule.intervals.selection_autoscroll <= u64::MAX
            &&& now + schedule.intervals.git_refresh <= u64::MAX
        },
        schedule.git_in_range() <==> schedule.git.last_refresh + schedule.intervals.git_refresh
            <= u64::MAX,
        schedule.render_in_range() <==> (schedule.last_render_at is Some
            ==> schedule.last_render_at->0 + schedule.intervals.min_render <= u64::MAX),
{
}

} // verus!
