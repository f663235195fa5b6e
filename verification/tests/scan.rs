use neewer_bridge::scan::{next, wait_over, Phase, ScanAction, ScanCoordinator, IDLE_RECHECK};

#[test]
fn guard_counts_track_searchers() {
    let mut c = ScanCoordinator::new();
    assert_eq!(c.searching(), 0);
    c.begin_search();
    assert_eq!(c.searching(), 1);
    c.begin_search();
    assert_eq!(c.searching(), 2);
    c.end_search();
    assert_eq!(c.searching(), 1);
    c.end_search();
    assert_eq!(c.searching(), 0);
}

#[test]
fn guards_are_independent_and_order_agnostic() {
    let mut c = ScanCoordinator::new();
    c.begin_search();
    c.begin_search();
    c.begin_search();
    assert_eq!(c.searching(), 3);
    c.end_search();
    c.end_search();
    assert_eq!(c.searching(), 1);
    c.end_search();
    assert_eq!(c.searching(), 0);
}

#[test]
fn bursts_run_only_while_a_light_is_missing() {
    let (window, pause) = (8, 2);
    assert_eq!(
        next(Phase::Rest, true, 0, window, pause),
        (Phase::Rest, ScanAction::Idle(IDLE_RECHECK))
    );
    assert_eq!(next(Phase::Rest, true, 1, window, pause), (Phase::Starting, ScanAction::Start));
    assert_eq!(
        next(Phase::Starting, true, 1, window, pause),
        (Phase::Burst, ScanAction::Wait(window))
    );
    assert_eq!(next(Phase::Burst, true, 1, window, pause).1, ScanAction::Stop);
    assert_eq!(next(Phase::Stopped, true, 1, window, pause).1, ScanAction::Wait(pause));
    // A start that fails is cleared and tried once more.
    assert_eq!(next(Phase::Starting, false, 1, window, pause).1, ScanAction::Stop);
    assert_eq!(next(Phase::Clearing, true, 1, window, pause).1, ScanAction::Start);
    assert!(wait_over(false, 0));
    assert!(wait_over(true, 1));
    assert!(!wait_over(false, 1));
}
