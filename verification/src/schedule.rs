//! The decisions of `test --every`: when to run a test, what to count, and
//! when to stop. The caller waits for the ticks, runs the tests and watches
//! for Ctrl+C, and hands each of those back as an event.
use vstd::prelude::*;

use crate::text::{decimal, push_str, push_u64};

verus! {

/// Where a schedule stands.
#[derive(Debug, Clone, Copy, PartialEq, Eq)]
pub struct ScheduleState {
    /// Tests started so far.
    pub iteration: u64,
    /// Tests that failed so far.
    pub failures: u64,
    /// Whether a test is running now.
    pub running: bool,
    /// Whether the schedule has stopped.
    pub stopped: bool,
}

/// What happened while the schedule waited.
#[derive(Debug, Clone, Copy, PartialEq, Eq)]
pub enum ScheduleEvent {
    /// The interval came round.
    Tick,
    /// The running test ended, successfully or not.
    TestFinished { ok: bool },
    /// Ctrl+C was pressed.
    Shutdown,
}

/// What the caller does next.
#[derive(Debug, Clone, Copy, PartialEq, Eq)]
pub enum ScheduleAction {
    /// Run test number `iteration`.
    RunTest { iteration: u64 },
    /// Report that test `iteration` completed, then wait for the next tick.
    Completed { iteration: u64 },
    /// Report that test `iteration` failed (`failures` so far), then wait
    /// for the next tick: one failure does not end the schedule.
    Failed { iteration: u64, failures: u64 },
    /// Stop, reporting the counts.
    Stop { iteration: u64, failures: u64 },
    /// Nothing to do for this event.
    Ignore,
}

impl ScheduleState {
    /// Counts never disagree: no more failures than tests started.
    pub open spec fn wf(self) -> bool {
        self.failures <= self.iteration
    }

    /// A schedule that has not run anything yet.
    pub fn new() -> (s: Self)
        ensures
            s == (ScheduleState { iteration: 0, failures: 0, running: false, stopped: false }),
    {
        ScheduleState { iteration: 0, failures: 0, running: false, stopped: false }
    }
}

/// The next state and action for `event` in `state`.
pub open spec fn spec_schedule_step(state: ScheduleState, event: ScheduleEvent) -> (ScheduleState, ScheduleAction) {
    if state.stopped {
        (state, ScheduleAction::Ignore)
    } else {
        match event {
            ScheduleEvent::Shutdown => (
                ScheduleState { stopped: true, running: false, ..state },
                ScheduleAction::Stop { iteration: state.iteration, failures: state.failures },
            ),
            ScheduleEvent::Tick => if state.running {
                (state, ScheduleAction::Ignore)
            } else {
                let n = (state.iteration + 1) as u64;
                (
                    ScheduleState { iteration: n, running: true, ..state },
                    ScheduleAction::RunTest { iteration: n },
                )
            },
            ScheduleEvent::TestFinished { ok } => if !state.running {
                (state, ScheduleAction::Ignore)
            } else if ok {
                (
                    ScheduleState { running: false, ..state },
                    ScheduleAction::Completed { iteration: state.iteration },
                )
            } else {
                let f = (state.failures + 1) as u64;
                (
                    ScheduleState { failures: f, running: false, ..state },
                    ScheduleAction::Failed { iteration: state.iteration, failures: f },
                )
            },
        }
    }
}

/// Decides what to do for `event`: a tick starts the next test unless one is
/// running; a finished test is counted and reported; Ctrl+C stops the
/// schedule, whether a test is running or not.
pub fn schedule_step(state: ScheduleState, event: ScheduleEvent) -> (r: (ScheduleState, ScheduleAction))
    requires
        state.wf(),
        state.iteration < u64::MAX,
    ensures
        r == spec_schedule_step(state, event),
{
    if state.stopped {
        return (state, ScheduleAction::Ignore);
    }
    match event {
        ScheduleEvent::Shutdown => (
            ScheduleState { stopped: true, running: false, ..state },
            ScheduleAction::Stop { iteration: state.iteration, failures: state.failures },
        ),
        ScheduleEvent::Tick => {
            if state.running {
                (state, ScheduleAction::Ignore)
            } else {
                let n = state.iteration + 1;
                (ScheduleState { iteration: n, running: true, ..state }, ScheduleAction::RunTest { iteration: n })
            }
        },
        ScheduleEvent::TestFinished { ok } => {
            if !state.running {
                (state, ScheduleAction::Ignore)
            } else if ok {
                (ScheduleState { running: false, ..state }, ScheduleAction::Completed { iteration: state.iteration })
            } else {
                let f = state.failures + 1;
                (
                    ScheduleState { failures: f, running: false, ..state },
                    ScheduleAction::Failed { iteration: state.iteration, failures: f },
                )
            }
        },
    }
}

/// A running test has been counted: a state reached from a fresh schedule
/// has `failures < iteration` while a test runs.
pub open spec fn counted(state: ScheduleState) -> bool {
    state.wf() && (state.running ==> state.failures < state.iteration)
}

/// Every step keeps the counts consistent: failures never outnumber the
/// tests started, and a test that is running is already counted.
pub proof fn law_step_keeps_counts(state: ScheduleState, event: ScheduleEvent)
    requires
        counted(state),
        state.iteration < u64::MAX,
    ensures
        counted(spec_schedule_step(state, event).0),
        spec_schedule_step(state, event).0.iteration >= state.iteration,
        spec_schedule_step(state, event).0.failures >= state.failures,
{
}

/// Ctrl+C stops the schedule whatever it is doing, a running test
/// included, and a stopped schedule does nothing more.
pub proof fn law_shutdown_stops(state: ScheduleState, event: ScheduleEvent)
    ensures
        !state.stopped ==> spec_schedule_step(state, ScheduleEvent::Shutdown).0.stopped
            && spec_schedule_step(state, ScheduleEvent::Shutdown).1 == (ScheduleAction::Stop {
                iteration: state.iteration,
                failures: state.failures,
            }),
        state.stopped ==> spec_schedule_step(state, event) == (state, ScheduleAction::Ignore),
{
}

/// The line logged for an action.
pub open spec fn spec_action_message(action: ScheduleAction, interval: Seq<char>) -> Seq<char> {
    match action {
        ScheduleAction::RunTest { .. } => Seq::empty(),
        ScheduleAction::Completed { iteration } => "test #"@ + decimal(iteration as nat) + " complete, next in "@
            + interval,
        ScheduleAction::Failed { iteration, failures } => "test #"@ + decimal(iteration as nat) + " failed ("@
            + decimal(failures as nat) + " total), continuing"@,
        ScheduleAction::Stop { iteration, failures } => "stopping scheduled tests ("@ + decimal(
            iteration as nat,
        ) + " tests completed, "@ + decimal(failures as nat) + " failed)"@,
        ScheduleAction::Ignore => Seq::empty(),
    }
}

impl ScheduleAction {
    /// The line the command line logs for this action (none for starting a
    /// test or an ignored event); `interval` is the schedule's interval as
    /// written by `format_duration`.
    pub fn message(&self, interval: &str) -> (m: String)
        ensures
            m@ == spec_action_message(*self, interval@),
    {
        let mut m = String::new();
        match *self {
            ScheduleAction::RunTest { .. } => {},
            ScheduleAction::Completed { iteration } => {
                push_str(&mut m, "test #");
                push_u64(&mut m, iteration);
                push_str(&mut m, " complete, next in ");
                push_str(&mut m, interval);
            },
            ScheduleAction::Failed { iteration, failures } => {
                push_str(&mut m, "test #");
                push_u64(&mut m, iteration);
                push_str(&mut m, " failed (");
                push_u64(&mut m, failures);
                push_str(&mut m, " total), continuing");
            },
            ScheduleAction::Stop { iteration, failures } => {
                push_str(&mut m, "stopping scheduled tests (");
                push_u64(&mut m, iteration);
                push_str(&mut m, " tests completed, ");
                push_u64(&mut m, failures);
                push_str(&mut m, " failed)");
            },
            ScheduleAction::Ignore => {},
        }
        m
    }
}

} // verus!
