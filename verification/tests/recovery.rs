use neewer_bridge::clock::secs;
use neewer_bridge::recovery::{
    adapter_object_path, plan, Action, BadAdapterId, Event, History, Outcome, RecoveryMode,
    StaleLinkRecovery, Step, ADAPTER_CYCLE_MIN_GAP, DAEMON_RESTART_MIN_GAP,
};

#[test]
fn recovery_mode_parses_case_insensitively_and_rejects_the_rest() {
    assert_eq!(RecoveryMode::parse("auto"), Some(RecoveryMode::Auto));
    assert_eq!(RecoveryMode::parse(" Adapter "), Some(RecoveryMode::Adapter));
    assert_eq!(RecoveryMode::parse("OFF"), Some(RecoveryMode::Off));
    assert_eq!(RecoveryMode::parse("none"), None);
    assert_eq!(RecoveryMode::parse(""), None);
    for name in RecoveryMode::NAMES {
        assert_eq!(RecoveryMode::parse(name).unwrap().as_str(), name);
    }
}

#[test]
fn ladder_follows_the_mode_and_the_rate_limits() {
    let t0: u128 = secs(1_000_000);
    let fresh = History { last_adapter_cycle: None, last_daemon_restart: None };

    // Off never touches anything, whatever the history.
    assert!(plan(RecoveryMode::Off, fresh, t0).is_empty());
    // Adapter-only stops at the power-cycle.
    assert_eq!(plan(RecoveryMode::Adapter, fresh, t0), vec![Step::CycleAdapter]);
    // Auto escalates to the daemon restart if the cycle doesn't clear it.
    assert_eq!(
        plan(RecoveryMode::Auto, fresh, t0),
        vec![Step::CycleAdapter, Step::RestartDaemon]
    );

    // A cycle that just ran is not repeated.
    let just_cycled = History { last_adapter_cycle: Some(t0), last_daemon_restart: None };
    assert_eq!(
        plan(RecoveryMode::Auto, just_cycled, t0 + secs(30)),
        vec![Step::RestartDaemon]
    );
    assert!(plan(RecoveryMode::Adapter, just_cycled, t0 + secs(30)).is_empty());
    // ...and is allowed again once its gap has passed (inclusive boundary).
    assert_eq!(
        plan(RecoveryMode::Adapter, just_cycled, t0 + ADAPTER_CYCLE_MIN_GAP),
        vec![Step::CycleAdapter]
    );

    // Both rungs used recently: nothing to do until the gaps pass.
    let both = History { last_adapter_cycle: Some(t0), last_daemon_restart: Some(t0) };
    assert!(plan(RecoveryMode::Auto, both, t0 + secs(60)).is_empty());
    assert_eq!(
        plan(RecoveryMode::Auto, both, t0 + DAEMON_RESTART_MIN_GAP),
        vec![Step::CycleAdapter, Step::RestartDaemon]
    );

    // A clock that appears to run backwards saturates to "not due".
    assert!(plan(RecoveryMode::Auto, both, t0 - secs(1)).is_empty());
}

#[test]
fn adapter_object_path_accepts_hci_ids_only() {
    assert_eq!(adapter_object_path("hci0").unwrap(), "/org/bluez/hci0");
    assert_eq!(adapter_object_path("hci12").unwrap(), "/org/bluez/hci12");
    for bad in ["", "hci0/../hci1", "hci 0", "hci0 (usb:v1D6B)", "../"] {
        assert_eq!(adapter_object_path(bad), Err(BadAdapterId), "{bad:?} must be rejected");
    }
}

#[test]
fn recover_checks_the_record_before_and_after_each_step() {
    let now = secs(1_000);
    // Already clear: no step runs, nothing is recorded.
    let mut gate = StaleLinkRecovery::new(RecoveryMode::Auto);
    assert_eq!(gate.begin(false, now), Action::Finish(Outcome::AlreadyClear));
    assert!(gate.history().last_adapter_cycle.is_none());

    // Off: parks without touching anything, even though the record is stale.
    let mut gate = StaleLinkRecovery::new(RecoveryMode::Off);
    assert_eq!(gate.begin(true, now), Action::Finish(Outcome::Disabled));
    assert!(gate.history().last_adapter_cycle.is_none());

    // Both rungs run, the record stays stale.
    let mut gate = StaleLinkRecovery::new(RecoveryMode::Auto);
    assert_eq!(gate.begin(true, now), Action::Attempt(Step::CycleAdapter));
    assert_eq!(
        gate.report(Step::CycleAdapter, Event::Settled { stale: true }, now),
        Action::Attempt(Step::RestartDaemon)
    );
    assert_eq!(
        gate.report(Step::RestartDaemon, Event::Failed, now),
        Action::Finish(Outcome::StillStale)
    );

    // Rate-limited: both rungs ran a moment ago, so nothing is attempted.
    assert_eq!(gate.begin(true, now + secs(1)), Action::Finish(Outcome::RateLimited));

    // Later, the first rung clears it.
    let later = now + DAEMON_RESTART_MIN_GAP;
    assert_eq!(gate.begin(true, later), Action::Attempt(Step::CycleAdapter));
    assert_eq!(
        gate.report(Step::CycleAdapter, Event::Settled { stale: false }, later),
        Action::Finish(Outcome::Cleared(Step::CycleAdapter))
    );
}

#[test]
fn an_episode_that_cleared_has_nothing_left() {
    let now = secs(1_000);
    let mut gate = StaleLinkRecovery::new(RecoveryMode::Auto);
    assert_eq!(gate.begin(true, now), Action::Attempt(Step::CycleAdapter));
    assert_eq!(
        gate.report(Step::CycleAdapter, Event::Settled { stale: false }, now),
        Action::Finish(Outcome::Cleared(Step::CycleAdapter))
    );
    assert_eq!(
        gate.report(Step::CycleAdapter, Event::Failed, now),
        Action::Finish(Outcome::StillStale)
    );
    // In adapter mode the daemon is never restarted.
    let mut gate = StaleLinkRecovery::new(RecoveryMode::Adapter);
    assert_eq!(gate.begin(true, now), Action::Attempt(Step::CycleAdapter));
    assert_eq!(
        gate.report(Step::CycleAdapter, Event::Failed, now),
        Action::Finish(Outcome::StillStale)
    );
}
