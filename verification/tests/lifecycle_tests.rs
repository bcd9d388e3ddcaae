use state_cache::lifecycle::Phase;
use state_cache::lifecycle::PollOutcome;
use state_cache::LifecycleController;

#[test]
fn fresh_controller_accepts() {
    let mut c = LifecycleController::new();
    assert_eq!(c.phase(), Phase::Accepting);
    assert_eq!(c.in_flight(), 0);
    assert!(c.try_enter());
    assert_eq!(c.in_flight(), 1);
}

#[test]
fn poll_before_signal_reports_not_signalled() {
    let mut c = LifecycleController::new();
    assert_eq!(c.poll_drain(0), PollOutcome::NotSignalled);
    assert_eq!(c.phase(), Phase::Accepting);
}

#[test]
fn draining_rejects_new_work() {
    let mut c = LifecycleController::new();
    assert!(c.try_enter());
    c.signal_shutdown(0, 5_000_000);
    assert_eq!(c.phase(), Phase::Draining);
    assert!(!c.try_enter());
    assert_eq!(c.in_flight(), 1);
}

#[test]
fn drain_is_clean_when_all_in_flight_finish_before_timeout() {
    // three requests in flight, a five-second drain budget (microsecond ticks)
    let mut c = LifecycleController::new();
    assert!(c.try_enter());
    assert!(c.try_enter());
    assert!(c.try_enter());
    c.signal_shutdown(0, 5_000_000);
    // all three finish within two seconds
    c.exit();
    c.exit();
    c.exit();
    assert_eq!(c.poll_drain(2_000_000), PollOutcome::StoppedClean);
    assert_eq!(c.phase(), Phase::Stopped);
}

#[test]
fn drain_is_forced_at_exactly_the_deadline_when_one_hangs() {
    let mut c = LifecycleController::new();
    assert!(c.try_enter());
    assert!(c.try_enter());
    assert!(c.try_enter());
    c.signal_shutdown(0, 5_000_000);
    // two finish quickly, one hangs
    c.exit();
    c.exit();
    assert_eq!(c.poll_drain(2_000_000), PollOutcome::StillDraining);
    assert_eq!(c.poll_drain(4_999_999), PollOutcome::StillDraining);
    assert_eq!(c.poll_drain(5_000_000), PollOutcome::StoppedForced);
    assert_eq!(c.phase(), Phase::Stopped);
}

#[test]
fn clean_stop_wins_when_zero_and_deadline_coincide() {
    let mut c = LifecycleController::new();
    assert!(c.try_enter());
    c.signal_shutdown(0, 1000);
    c.exit();
    assert_eq!(c.poll_drain(1000), PollOutcome::StoppedClean);
}

#[test]
fn stop_outcome_stays_readable_after_the_stop() {
    let mut c = LifecycleController::new();
    assert!(c.try_enter());
    c.signal_shutdown(0, 1000);
    assert_eq!(c.poll_drain(1000), PollOutcome::StoppedForced);
    // the hanging request finishing later does not rewrite history
    c.exit();
    assert_eq!(c.poll_drain(2000), PollOutcome::StoppedForced);
}

#[test]
fn second_signal_does_not_move_the_deadline() {
    let mut c = LifecycleController::new();
    assert!(c.try_enter());
    c.signal_shutdown(0, 5000);
    c.signal_shutdown(3000, 5000);
    // the first deadline (5000) stands, not 8000
    assert_eq!(c.poll_drain(5000), PollOutcome::StoppedForced);
}

#[test]
fn exit_is_counted_on_failure_paths_too() {
    // the driver calls exit on every path out of a request; the controller
    // sees only the count
    let mut c = LifecycleController::new();
    assert!(c.try_enter());
    assert!(c.try_enter());
    c.exit();
    c.signal_shutdown(10, 100);
    c.exit();
    assert_eq!(c.in_flight(), 0);
    assert_eq!(c.poll_drain(20), PollOutcome::StoppedClean);
}
