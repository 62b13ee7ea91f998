use bbm::schedule::{schedule_step, ScheduleAction, ScheduleEvent, ScheduleState};

#[test]
fn ticks_start_tests_and_results_are_counted() {
    let s = ScheduleState::new();
    let (s, a) = schedule_step(s, ScheduleEvent::Tick);
    assert_eq!(a, ScheduleAction::RunTest { iteration: 1 });
    let (s, a) = schedule_step(s, ScheduleEvent::TestFinished { ok: true });
    assert_eq!(a, ScheduleAction::Completed { iteration: 1 });
    assert_eq!(a.message("30m"), "test #1 complete, next in 30m");
    let (s, a) = schedule_step(s, ScheduleEvent::Tick);
    assert_eq!(a, ScheduleAction::RunTest { iteration: 2 });
    assert_eq!(a.message("30m"), "");
    let (s, a) = schedule_step(s, ScheduleEvent::TestFinished { ok: false });
    assert_eq!(a, ScheduleAction::Failed { iteration: 2, failures: 1 });
    assert_eq!(a.message("30m"), "test #2 failed (1 total), continuing");
    assert_eq!((s.iteration, s.failures, s.running, s.stopped), (2, 1, false, false));
}

#[test]
fn a_tick_during_a_test_is_ignored() {
    let (s, _) = schedule_step(ScheduleState::new(), ScheduleEvent::Tick);
    let (s2, a) = schedule_step(s, ScheduleEvent::Tick);
    assert_eq!(a, ScheduleAction::Ignore);
    assert_eq!(s2, s);
}

#[test]
fn ctrl_c_stops_even_during_a_test() {
    let (s, _) = schedule_step(ScheduleState::new(), ScheduleEvent::Tick);
    let (s, a) = schedule_step(s, ScheduleEvent::Shutdown);
    assert_eq!(a, ScheduleAction::Stop { iteration: 1, failures: 0 });
    assert_eq!(a.message("1h"), "stopping scheduled tests (1 tests completed, 0 failed)");
    assert!(s.stopped);
    let (_, a) = schedule_step(s, ScheduleEvent::Tick);
    assert_eq!(a, ScheduleAction::Ignore);
}

#[test]
fn failures_never_outnumber_tests() {
    // The law, along one run: every state keeps failures <= iteration.
    let mut s = ScheduleState::new();
    let events = [
        ScheduleEvent::TestFinished { ok: false },
        ScheduleEvent::Tick,
        ScheduleEvent::TestFinished { ok: false },
        ScheduleEvent::TestFinished { ok: false },
        ScheduleEvent::Tick,
        ScheduleEvent::TestFinished { ok: false },
    ];
    for e in events {
        s = schedule_step(s, e).0;
        assert!(s.failures <= s.iteration);
    }
    assert_eq!((s.iteration, s.failures), (2, 2));
}
