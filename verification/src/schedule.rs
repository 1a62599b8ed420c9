//! When the program has to wake up.
//!
//! Moments are readings of a monotonic clock in nanoseconds, counted from a point that
//! lies before every moment the program deals with.

use crate::app::App;
use vstd::prelude::*;

verus! {

/// How often the server looks for wait lease requests.
pub const WAIT_LEASE_POLL_INTERVAL_NS: u64 = 100_000_000;

/// The periods at which things are done, in nanoseconds.
#[derive(Debug, Clone, Copy, PartialEq, Eq, Structural)]
pub struct Intervals {
    pub animation: u64,
    pub headless_animation: u64,
    pub min_render: u64,
    pub resize_poll: u64,
    pub selection_autoscroll: u64,
    pub auto_update_check: u64,
    pub git_refresh: u64,
}

/// The size of the screen in cells.
#[derive(Debug, Clone, Copy, PartialEq, Eq, Structural)]
pub struct TerminalSize {
    pub columns: u16,
    pub rows: u16,
}

/// The state of the git status refresh.
#[derive(Debug, Clone, Copy, PartialEq, Eq, Structural)]
pub struct GitRefresh {
    pub in_flight: bool,
    /// Another refresh was asked for while one was in flight.
    pub due_after_in_flight: bool,
    pub last_refresh: u64,
}

/// What is to happen when, and what of it shows.
#[derive(Debug, Clone, Copy, PartialEq, Eq, Structural)]
pub struct Schedule {
    pub intervals: Intervals,
    pub next_wait_lease_poll: u64,
    pub next_resize_poll: u64,
    pub config_diagnostic_deadline: Option<u64>,
    pub toast_deadline: Option<u64>,
    pub pending_agent_notification_deadline: Option<u64>,
    pub managed_agent_deadline: Option<u64>,
    pub copy_feedback_deadline: Option<u64>,
    pub next_animation_tick: Option<u64>,
    pub next_auto_update_check: Option<u64>,
    pub next_agent_manifest_update_check: Option<u64>,
    pub agent_metadata_deadline: Option<u64>,
    pub pending_agent_resume_deadline: Option<u64>,
    pub session_save_deadline: Option<u64>,
    pub last_render_at: Option<u64>,
    pub git: GitRefresh,
    pub config_diagnostic_shown: bool,
    pub toast_shown: bool,
    pub copy_feedback_shown: bool,
    pub spinner_tick: u32,
    pub last_terminal_size: Option<TerminalSize>,
    pub update_available: bool,
}

/// A deadline has come.
pub open spec fn is_due(deadline: Option<u64>, now: u64) -> bool {
    deadline matches Some(deadline) && now >= deadline
}

/// Whether a deadline has come.
pub fn due(deadline: Option<u64>, now: u64) -> (r: bool)
    ensures
        r == is_due(deadline, now),
{
    match deadline {
        Some(deadline) => now >= deadline,
        None => false,
    }
}

/// The earliest of some deadlines.
pub open spec fn is_earliest(earliest: Option<u64>, deadlines: Seq<Option<u64>>) -> bool {
    match earliest {
        Some(moment) => {
            &&& deadlines.contains(Some(moment))
            &&& forall|i: int|
                0 <= i < deadlines.len() ==> (#[trigger] deadlines[i] matches Some(other) ==> moment
                    <= other)
        },
        None => forall|i: int| 0 <= i < deadlines.len() ==> #[trigger] deadlines[i] is None,
    }
}

impl Schedule {
    /// When the next git status refresh is due, if there is anything to refresh.
    pub open spec fn git_deadline(self, has_workspaces: bool) -> Option<u64> {
        if !self.git.in_flight && has_workspaces {
            Some((self.git.last_refresh + self.intervals.git_refresh) as u64)
        } else {
            None
        }
    }

    /// When the screen may be drawn again, if it has to be and may not yet.
    pub open spec fn render_deadline(self, now: u64, needs_render: bool) -> Option<u64> {
        match self.last_render_at {
            Some(last) if needs_render && last + self.intervals.min_render > now => Some(
                (last + self.intervals.min_render) as u64,
            ),
            _ => None,
        }
    }

    /// Moments can be told apart from each other up to the next refresh.
    pub open spec fn git_in_range(self) -> bool {
        self.git.last_refresh + self.intervals.git_refresh <= u64::MAX
    }

    /// Moments can be told apart from each other up to the next drawing of the screen.
    pub open spec fn render_in_range(self) -> bool {
        self.last_render_at matches Some(last) ==> last + self.intervals.min_render <= u64::MAX
    }
}

impl App {
    pub open spec fn has_workspaces(self) -> bool {
        self.layout.workspaces@.len() > 0
    }

    /// Everything that the program may have to wake up for.
    pub open spec fn wakeups(
        self,
        now: u64,
        needs_render: bool,
        include_resize_poll: bool,
        include_git_refresh: bool,
    ) -> Seq<Option<u64>> {
        let s = self.schedule;
        seq![
            if include_resize_poll {
                Some(s.next_resize_poll)
            } else {
                None
            },
            Some(s.next_wait_lease_poll),
            s.config_diagnostic_deadline,
            s.toast_deadline,
            s.pending_agent_notification_deadline,
            s.managed_agent_deadline,
            s.copy_feedback_deadline,
            s.next_animation_tick,
            if include_git_refresh {
                s.git_deadline(self.has_workspaces())
            } else {
                None
            },
            s.next_auto_update_check,
            s.next_agent_manifest_update_check,
            s.agent_metadata_deadline,
            s.pending_agent_resume_deadline,
            s.session_save_deadline,
            self.selection.selection_autoscroll_deadline,
            self.selection.selection_highlight_clear_deadline,
            s.render_deadline(now, needs_render),
        ]
    }

    /// Whether the screen may be drawn again.
    pub fn can_render_now(&self, now: u64) -> (r: bool)
        ensures
            r == match self.schedule.last_render_at {
                Some(last) => now.saturating_sub(last) >= self.schedule.intervals.min_render,
                None => true,
            },
    {
        match self.schedule.last_render_at {
            Some(last) => now.saturating_sub(last) >= self.schedule.intervals.min_render,
            None => true,
        }
    }

    pub fn git_refresh_deadline(&self) -> (r: Option<u64>)
        requires
            self.schedule.git_in_range(),
        ensures
            r == self.schedule.git_deadline(self.has_workspaces()),
    {
        if !self.schedule.git.in_flight && self.layout.workspaces.len() > 0 {
            Some(self.schedule.git.last_refresh + self.schedule.intervals.git_refresh)
        } else {
            None
        }
    }

    /// Asks for a git status refresh at once, or after the one that is in flight.
    pub fn mark_git_status_refresh_due(&mut self, now: u64)
        ensures
            *final(self) == (App {
                schedule: Schedule {
                    git: old(self).schedule.git.marked_due(
                        now,
                        old(self).schedule.intervals.git_refresh,
                    ),
                    ..old(self).schedule
                },
                ..*old(self)
            }),
    {
        if self.schedule.git.in_flight {
            self.schedule.git.due_after_in_flight = true;
            return;
        }
        self.schedule.git.last_refresh = match now.checked_sub(
            self.schedule.intervals.git_refresh,
        ) {
            Some(moment) => moment,
            None => now,
        };
        self.schedule.git.due_after_in_flight = false;
    }

    /// A refresh has come back. If another was asked for meanwhile it is due at once.
    pub fn git_status_refreshed(&mut self, now: u64)
        ensures
            *final(self) == (App {
                schedule: Schedule {
                    git: old(self).schedule.git.refreshed(
                        now,
                        old(self).schedule.intervals.git_refresh,
                    ),
                    ..old(self).schedule
                },
                ..*old(self)
            }),
    {
        self.schedule.git.in_flight = false;
        if self.schedule.git.due_after_in_flight {
            self.mark_git_status_refresh_due(now);
        } else {
            self.schedule.git.last_refresh = now;
        }
    }

    /// When the loop has to wake up at the latest.
    pub fn next_loop_deadline(&self, now: u64, needs_render: bool) -> (r: Option<u64>)
        requires
            self.schedule.git_in_range(),
            needs_render ==> self.schedule.render_in_range(),
        ensures
            is_earliest(r, self.wakeups(now, needs_render, true, true)),
    {
        self.next_loop_deadline_with_resize_poll(now, needs_render, true, true)
    }

    /// When the loop of a program without a screen of its own has to wake up at the
    /// latest.
    pub fn next_headless_loop_deadline_with_git_refresh(
        &self,
        now: u64,
        needs_render: bool,
        include_git_refresh: bool,
    ) -> (r: Option<u64>)
        requires
            include_git_refresh ==> self.schedule.git_in_range(),
            needs_render ==> self.schedule.render_in_range(),
        ensures
            is_earliest(r, self.wakeups(now, needs_render, false, include_git_refresh)),
    {
        self.next_loop_deadline_with_resize_poll(now, needs_render, false, include_git_refresh)
    }

    fn next_loop_deadline_with_resize_poll(
        &self,
        now: u64,
        needs_render: bool,
        include_resize_poll: bool,
        include_git_refresh: bool,
    ) -> (r: Option<u64>)
        requires
            include_git_refresh ==> self.schedule.git_in_range(),
            needs_render ==> self.schedule.render_in_range(),
        ensures
            is_earliest(
                r,
                self.wakeups(now, needs_render, include_resize_poll, include_git_refresh),
            ),
    {
        let s = &self.schedule;
        let render_deadline: Option<u64> = match s.last_render_at {
            Some(last) => {
                if needs_render && last + s.intervals.min_render > now {
                    Some(last + s.intervals.min_render)
                } else {
                    None
                }
            },
            None => None,
        };
        let resize_poll: Option<u64> = if include_resize_poll {
            Some(s.next_resize_poll)
        } else {
            None
        };
        let git_refresh: Option<u64> = if include_git_refresh {
            self.git_refresh_deadline()
        } else {
            None
        };
        let deadlines: Vec<Option<u64>> = vec![
            resize_poll,
            Some(s.next_wait_lease_poll),
            s.config_diagnostic_deadline,
            s.toast_deadline,
            s.pending_agent_notification_deadline,
            s.managed_agent_deadline,
            s.copy_feedback_deadline,
            s.next_animation_tick,
            git_refresh,
            s.next_auto_update_check,
            s.next_agent_manifest_update_check,
            s.agent_metadata_deadline,
            s.pending_agent_resume_deadline,
            s.session_save_deadline,
            self.selection.selection_autoscroll_deadline,
            self.selection.selection_highlight_clear_deadline,
            render_deadline,
        ];
        assert(deadlines@ =~= self.wakeups(
            now,
            needs_render,
            include_resize_poll,
            include_git_refresh,
        ));
        earliest(&deadlines)
    }
}

/// The earliest of some deadlines.
pub fn earliest(deadlines: &Vec<Option<u64>>) -> (r: Option<u64>)
    ensures
        is_earliest(r, deadlines@),
{
    let mut found: Option<u64> = None;
    let mut i: usize = 0;
    while i < deadlines.len()
        invariant
            i <= deadlines@.len(),
            is_earliest(found, deadlines@.take(i as int)),
        decreases deadlines@.len() - i,
    {
        let ghost before = deadlines@.take(i as int);
        let ghost after = deadlines@.take(i + 1);
        let ghost previous = found;
        if let Some(moment) = deadlines[i] {
            found = match found {
                Some(other) => if other <= moment {
                    Some(other)
                } else {
                    Some(moment)
                },
                None => Some(moment),
            };
        }
        proof {
            assert(after =~= before.push(deadlines@[i as int]));
            assert(forall|k: int| 0 <= k < i ==> after[k] == before[k]);
            if found is Some {
                if found == previous {
                    let k = choose|k: int| 0 <= k < before.len() && before[k] == found;
                    assert(after[k] == found);
                } else {
                    assert(after[i as int] == found);
                }
            }
        }
        i = i + 1;
    }
    assert(deadlines@.take(i as int) =~= deadlines@);
    found
}

impl GitRefresh {
    /// The state after a refresh was asked for.
    pub open spec fn marked_due(self, now: u64, interval: u64) -> GitRefresh {
        if self.in_flight {
            GitRefresh { due_after_in_flight: true, ..self }
        } else {
            GitRefresh {
                last_refresh: if now >= interval {
                    (now - interval) as u64
                } else {
                    now
                },
                due_after_in_flight: false,
                ..self
            }
        }
    }

    /// The state after a refresh was started, or was over at once because there was
    /// nothing to look at.
    pub open spec fn started(self, now: u64, has_items: bool) -> GitRefresh {
        if has_items {
            GitRefresh { in_flight: true, ..self }
        } else {
            GitRefresh { last_refresh: now, ..self }
        }
    }

    /// The state after a refresh came back.
    pub open spec fn refreshed(self, now: u64, interval: u64) -> GitRefresh {
        let landed = GitRefresh { in_flight: false, ..self };
        if self.due_after_in_flight {
            landed.marked_due(now, interval)
        } else {
            GitRefresh { last_refresh: now, ..landed }
        }
    }
}

/// A refresh that is asked for while another is in flight is not lost: once that one
/// has come back, the next is due.
pub proof fn refresh_request_survives_flight(
    schedule: Schedule,
    asked_at: u64,
    now: u64,
)
    requires
        schedule.git.in_flight,
        now >= schedule.intervals.git_refresh,
    ensures
        ({
            let interval = schedule.intervals.git_refresh;
            let git = schedule.git.marked_due(asked_at, interval).refreshed(now, interval);
            &&& !git.in_flight
            &&& !git.due_after_in_flight
            &&& is_due(Schedule { git, ..schedule }.git_deadline(true), now)
        }),
{
}

/// No refresh is due while one is in flight, nor where there is nothing to refresh.
pub proof fn one_refresh_at_a_time(schedule: Schedule, now: u64, has_workspaces: bool)
    ensures
        schedule.git.in_flight || !has_workspaces ==> !is_due(
            schedule.git_deadline(has_workspaces),
            now,
        ),
        !is_due(
            Schedule { git: schedule.git.started(now, true), ..schedule }.git_deadline(
                has_workspaces,
            ),
            now,
        ),
{
}

/// A refresh that is asked for while none is in flight is due at once.
pub proof fn asked_for_refresh_is_due(schedule: Schedule, now: u64)
    requires
        !schedule.git.in_flight,
        now >= schedule.intervals.git_refresh,
    ensures
        ({
            let git = schedule.git.marked_due(now, schedule.intervals.git_refresh);
            is_due(Schedule { git, ..schedule }.git_deadline(true), now)
        }),
{
}

/// The loop never sleeps past the next look for wait lease requests, so it always has a
/// deadline.
pub proof fn loop_wakes_for_requests(
    app: App,
    now: u64,
    needs_render: bool,
    include_resize_poll: bool,
    include_git_refresh: bool,
    deadline: Option<u64>,
)
    requires
        is_earliest(
            deadline,
            app.wakeups(now, needs_render, include_resize_poll, include_git_refresh),
        ),
    ensures
        deadline matches Some(moment) && moment <= app.schedule.next_wait_lease_poll,
{
    let wakeups = app.wakeups(now, needs_render, include_resize_poll, include_git_refresh);
    assert(wakeups[1] == Some(app.schedule.next_wait_lease_poll));
}

/// A screen that has to be drawn and may not be yet is drawn as soon as it may be: the
/// loop wakes up by then.
pub proof fn loop_wakes_to_draw(app: App, now: u64, deadline: Option<u64>, last: u64)
    requires
        app.schedule.last_render_at == Some(last),
        last + app.schedule.intervals.min_render <= u64::MAX,
        now.saturating_sub(last) < app.schedule.intervals.min_render,
        is_earliest(deadline, app.wakeups(now, true, true, true)),
    ensures
        deadline matches Some(moment) && moment <= last + app.schedule.intervals.min_render,
{
    let wakeups = app.wakeups(now, true, true, true);
    assert(wakeups[16] == Some((last + app.schedule.intervals.min_render) as u64));
}

/// A deadline has come exactly from its own moment on.
pub proof fn deadline_comes_at_its_moment(deadline: u64, now: u64)
    ensures
        is_due(Some(deadline), now) <==> deadline <= now,
        !is_due(None, now),
{
}

/// The earliest of some deadlines is one of them, and none comes before it.
pub proof fn earliest_comes_first(earliest: Option<u64>, deadlines: Seq<Option<u64>>, i: int)
    requires
        is_earliest(earliest, deadlines),
        0 <= i < deadlines.len(),
        deadlines[i] is Some,
    ensures
        earliest is Some,
        earliest->0 <= deadlines[i]->0,
        exists|k: int| 0 <= k < deadlines.len() && #[trigger] deadlines[k] == earliest,
{
    if earliest is None {
        assert(deadlines[i] is None);
    }
}

/// The deadline is set and is no later than `moment`.
pub open spec fn wakes_by(moment: u64, deadline: Option<u64>) -> bool {
    deadline is Some ==> moment <= deadline->0
}

/// The loop wakes up for the first of everything that is set, and for nothing else.
pub proof fn loop_wakes_for_everything(
    app: App,
    now: u64,
    needs_render: bool,
    include_resize_poll: bool,
    include_git_refresh: bool,
    deadline: Option<u64>,
)
    requires
        is_earliest(
            deadline,
            app.wakeups(now, needs_render, include_resize_poll, include_git_refresh),
        ),
    ensures
        deadline is Some,
        ({
            let s = app.schedule;
            let moment = deadline->0;
            let git = s.git.last_refresh + s.intervals.git_refresh;
            let git_counts = include_git_refresh && !s.git.in_flight
                && app.layout.workspaces@.len() > 0;
            let drawn = s.last_render_at->0 + s.intervals.min_render;
            let drawing_counts = needs_render && s.last_render_at is Some && drawn > now;
            &&& moment <= s.next_wait_lease_poll
            &&& include_resize_poll ==> moment <= s.next_resize_poll
            &&& wakes_by(moment, s.config_diagnostic_deadline)
            &&& wakes_by(moment, s.toast_deadline)
            &&& wakes_by(moment, s.pending_agent_notification_deadline)
            &&& wakes_by(moment, s.managed_agent_deadline)
            &&& wakes_by(moment, s.copy_feedback_deadline)
            &&& wakes_by(moment, s.next_animation_tick)
            &&& git_counts && git <= u64::MAX ==> moment <= git
            &&& wakes_by(moment, s.next_auto_update_check)
            &&& wakes_by(moment, s.next_agent_manifest_update_check)
            &&& wakes_by(moment, s.agent_metadata_deadline)
            &&& wakes_by(moment, s.pending_agent_resume_deadline)
            &&& wakes_by(moment, s.session_save_deadline)
            &&& wakes_by(moment, app.selection.selection_autoscroll_deadline)
            &&& wakes_by(moment, app.selection.selection_highlight_clear_deadline)
            &&& drawing_counts && drawn <= u64::MAX ==> moment <= drawn
            &&& (git_counts ==> git <= u64::MAX) && (drawing_counts ==> drawn <= u64::MAX) ==> {
                ||| moment == s.next_wait_lease_poll
                ||| include_resize_poll && moment == s.next_resize_poll
                ||| Some(moment) == s.config_diagnostic_deadline
                ||| Some(moment) == s.toast_deadline
                ||| Some(moment) == s.pending_agent_notification_deadline
                ||| Some(moment) == s.managed_agent_deadline
                ||| Some(moment) == s.copy_feedback_deadline
                ||| Some(moment) == s.next_animation_tick
                ||| git_counts && moment == git
                ||| Some(moment) == s.next_auto_update_check
                ||| Some(moment) == s.next_agent_manifest_update_check
                ||| Some(moment) == s.agent_metadata_deadline
                ||| Some(moment) == s.pending_agent_resume_deadline
                ||| Some(moment) == s.session_save_deadline
                ||| Some(moment) == app.selection.selection_autoscroll_deadline
                ||| Some(moment) == app.selection.selection_highlight_clear_deadline
                ||| drawing_counts && moment == drawn
            }
        }),
{
    let w = app.wakeups(now, needs_render, include_resize_poll, include_git_refresh);
    assert(w.len() == 17);
    assert(w[1] == Some(app.schedule.next_wait_lease_poll));
    earliest_comes_first(deadline, w, 1);
    let m = deadline->0;
    assert(wakes_by(m, w[0]) && wakes_by(m, w[2]) && wakes_by(m, w[3]) && wakes_by(m, w[4]));
    assert(wakes_by(m, w[5]) && wakes_by(m, w[6]) && wakes_by(m, w[7]) && wakes_by(m, w[8]));
    assert(wakes_by(m, w[9]) && wakes_by(m, w[10]) && wakes_by(m, w[11]) && wakes_by(m, w[12]));
    assert(wakes_by(m, w[13]) && wakes_by(m, w[14]) && wakes_by(m, w[15]) && wakes_by(m, w[16]));
}

/// The git status is refreshed one interval after it was refreshed last, if there are
/// workspaces and no refresh is in flight. A refresh that came back, or that had nothing
/// to look at, counts from now; one that is asked for is due at once, as far back as the
/// clock reaches; asking while one is in flight is remembered, and nothing else changes.
pub proof fn refresh_keeps_its_interval(schedule: Schedule, now: u64, has_workspaces: bool)
    ensures
        ({
            let git = schedule.git;
            let interval = schedule.intervals.git_refresh;
            let deadline = schedule.git_deadline(has_workspaces);
            &&& deadline is Some <==> !git.in_flight && has_workspaces
            &&& deadline is Some && git.last_refresh + interval <= u64::MAX ==> deadline->0
                == git.last_refresh + interval
            &&& !git.due_after_in_flight ==> git.refreshed(now, interval) == (GitRefresh {
                in_flight: false,
                due_after_in_flight: false,
                last_refresh: now,
            })
            &&& git.due_after_in_flight ==> git.refreshed(now, interval) == (GitRefresh {
                in_flight: false,
                due_after_in_flight: false,
                last_refresh: if interval <= now {
                    (now - interval) as u64
                } else {
                    now
                },
            })
            &&& git.in_flight ==> git.marked_due(now, interval) == (GitRefresh {
                in_flight: true,
                due_after_in_flight: true,
                last_refresh: git.last_refresh,
            })
            &&& !git.in_flight ==> git.marked_due(now, interval) == (GitRefresh {
                in_flight: false,
                due_after_in_flight: false,
                last_refresh: if interval <= now {
                    (now - interval) as u64
                } else {
                    now
                },
            })
            &&& git.started(now, true) == (GitRefresh {
                in_flight: true,
                due_after_in_flight: git.due_after_in_flight,
                last_refresh: git.last_refresh,
            })
            &&& git.started(now, false) == (GitRefresh {
                in_flight: git.in_flight,
                due_after_in_flight: git.due_after_in_flight,
                last_refresh: now,
            })
        }),
{
}

} // verus!
