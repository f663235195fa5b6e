//! Discovery-scan coordination. A scan runs only while at least one light needs
//! discovery, and even then in bursts: cheap controllers choke on a permanent scan
//! beside active connections.

use vstd::prelude::*;
use crate::clock::Nanos;

verus! {

/// How long the idle wait lasts at most before it looks again: 5 s.
pub const IDLE_RECHECK: Nanos = 5_000_000_000;

/// How many lights need discovery.
#[derive(Debug)]
pub struct ScanCoordinator {
    searching: usize,
}

impl ScanCoordinator {
    /// The number of searches that were begun and not ended.
    pub closed spec fn outstanding(&self) -> nat {
        self.searching as nat
    }

    /// Nobody is searching.
    pub fn new() -> (c: Self)
        ensures
            c.outstanding() == 0,
    {
        ScanCoordinator { searching: 0 }
    }

    /// A light needs the scan until it calls [`ScanCoordinator::end_search`].
    pub fn begin_search(&mut self)
        requires
            old(self).outstanding() < usize::MAX,
        ensures
            final(self).outstanding() == old(self).outstanding() + 1,
    {
        self.searching = self.searching + 1;
    }

    /// A light that was searching no longer is.
    pub fn end_search(&mut self)
        requires
            old(self).outstanding() > 0,
        ensures
            final(self).outstanding() == old(self).outstanding() - 1,
    {
        self.searching = self.searching - 1;
    }

    /// How many lights currently need discovery.
    pub fn searching(&self) -> (r: usize)
        ensures
            r == self.outstanding(),
    {
        self.searching
    }
}

/// Where the scan loop stands: what it did last.
#[derive(Debug, Clone, Copy, PartialEq, Eq, Structural)]
pub enum Phase {
    /// Nothing is running.
    Rest,
    /// A scan was asked for.
    Starting,
    /// A scan that may have been left over was stopped.
    Clearing,
    /// A scan was asked for a second time.
    Retrying,
    /// A burst was on for its window.
    Burst,
    /// The burst was stopped.
    Stopped,
}

/// What the scan loop does next.
#[derive(Debug, Clone, Copy, PartialEq, Eq, Structural)]
pub enum ScanAction {
    /// Wait until the number of searches changes, at most this long.
    Idle(Nanos),
    /// Start a scan and report whether that worked.
    Start,
    /// Stop the scan.
    Stop,
    /// Wait this long; less, if every light connects meanwhile.
    Wait(Nanos),
}

/// What follows from the last phase: the next phase and action. `ok` is whether
/// the last action worked, `searching` how many lights need discovery.
pub open spec fn following(
    phase: Phase,
    ok: bool,
    searching: usize,
    window: Nanos,
    pause: Nanos,
) -> (Phase, ScanAction) {
    match phase {
        Phase::Rest => if searching == 0 {
            (Phase::Rest, ScanAction::Idle(IDLE_RECHECK))
        } else {
            (Phase::Starting, ScanAction::Start)
        },
        Phase::Starting => if ok {
            (Phase::Burst, ScanAction::Wait(window))
        } else {
            (Phase::Clearing, ScanAction::Stop)
        },
        Phase::Clearing => (Phase::Retrying, ScanAction::Start),
        Phase::Retrying => if ok {
            (Phase::Burst, ScanAction::Wait(window))
        } else {
            (
                Phase::Rest,
                ScanAction::Wait(
                    if pause > IDLE_RECHECK {
                        pause
                    } else {
                        IDLE_RECHECK
                    },
                ),
            )
        },
        Phase::Burst => (Phase::Stopped, ScanAction::Stop),
        Phase::Stopped => if pause != 0 && searching > 0 {
            (Phase::Rest, ScanAction::Wait(pause))
        } else if searching == 0 {
            (Phase::Rest, ScanAction::Idle(IDLE_RECHECK))
        } else {
            (Phase::Starting, ScanAction::Start)
        },
    }
}

/// One step of the scan loop. A scan that does not start is stopped and tried
/// once more, since a left-over session makes every start fail; then the loop
/// waits. A pause of 0 means that bursts follow one another.
pub fn next(phase: Phase, ok: bool, searching: usize, window: Nanos, pause: Nanos) -> (r: (
    Phase,
    ScanAction,
))
    ensures
        r == following(phase, ok, searching, window, pause),
{
    match phase {
        Phase::Rest => rest(searching),
        Phase::Starting => if ok {
            (Phase::Burst, ScanAction::Wait(window))
        } else {
            (Phase::Clearing, ScanAction::Stop)
        },
        Phase::Clearing => (Phase::Retrying, ScanAction::Start),
        Phase::Retrying => if ok {
            (Phase::Burst, ScanAction::Wait(window))
        } else {
            (
                Phase::Rest,
                ScanAction::Wait(
                    if pause > IDLE_RECHECK {
                        pause
                    } else {
                        IDLE_RECHECK
                    },
                ),
            )
        },
        Phase::Burst => (Phase::Stopped, ScanAction::Stop),
        Phase::Stopped => if pause != 0 && searching > 0 {
            (Phase::Rest, ScanAction::Wait(pause))
        } else {
            rest(searching)
        },
    }
}

fn rest(searching: usize) -> (r: (Phase, ScanAction))
    ensures
        r == (if searching == 0 {
            (Phase::Rest, ScanAction::Idle(IDLE_RECHECK))
        } else {
            (Phase::Starting, ScanAction::Start)
        }),
{
    if searching == 0 {
        (Phase::Rest, ScanAction::Idle(IDLE_RECHECK))
    } else {
        (Phase::Starting, ScanAction::Start)
    }
}

/// Whether a wait is over: its time has passed, or every light has connected.
pub fn wait_over(elapsed: bool, searching: usize) -> (r: bool)
    ensures
        r == (elapsed || searching == 0),
{
    elapsed || searching == 0
}

/// No scan is started while every light is connected, and a burst that was on is
/// always stopped before anything else happens.
pub proof fn law_no_needless_scan(
    phase: Phase,
    ok: bool,
    searching: usize,
    window: Nanos,
    pause: Nanos,
)
    ensures
        searching == 0 && (phase == Phase::Rest || phase == Phase::Stopped) ==> following(
            phase,
            ok,
            searching,
            window,
            pause,
        ).1 is Idle,
        following(Phase::Burst, ok, searching, window, pause).1 == ScanAction::Stop,
        following(phase, ok, searching, window, pause).1 == ScanAction::Start && phase
            != Phase::Clearing ==> searching > 0,
{
}

/// Between two bursts the scan is off for the pause while lights are missing.
pub proof fn law_bursts_are_spaced(ok: bool, searching: usize, window: Nanos, pause: Nanos)
    requires
        pause != 0,
        searching > 0,
    ensures
        following(Phase::Stopped, ok, searching, window, pause) == (
            Phase::Rest,
            ScanAction::Wait(pause),
        ),
{
}

/// While lights are missing the loop goes round: start, a burst as long as the window,
/// stop, a wait as long as the pause, and again; with no pause the next burst starts at
/// once. While none is missing it looks again every five seconds.
pub proof fn law_the_scan_goes_round(searching: usize, window: Nanos, pause: Nanos)
    ensures
        searching > 0 ==> following(Phase::Rest, true, searching, window, pause) == (
            Phase::Starting,
            ScanAction::Start,
        ),
        following(Phase::Starting, true, searching, window, pause) == (
            Phase::Burst,
            ScanAction::Wait(window),
        ),
        following(Phase::Burst, true, searching, window, pause) == (
            Phase::Stopped,
            ScanAction::Stop,
        ),
        searching > 0 && pause > 0 ==> following(Phase::Stopped, true, searching, window, pause) == (
            Phase::Rest,
            ScanAction::Wait(pause),
        ),
        searching > 0 && pause == 0 ==> following(Phase::Stopped, true, searching, window, pause)
            == (Phase::Starting, ScanAction::Start),
        searching == 0 ==> following(Phase::Rest, true, searching, window, pause) == (
            Phase::Rest,
            ScanAction::Idle(5_000_000_000),
        ),
        searching == 0 ==> following(Phase::Stopped, true, searching, window, pause) == (
            Phase::Rest,
            ScanAction::Idle(5_000_000_000),
        ),
{
}

/// A scan that does not start is stopped and started once more; if that fails too, the
/// loop waits for the pause, and for five seconds at least.
pub proof fn law_a_failed_start_is_retried_once(
    ok: bool,
    searching: usize,
    window: Nanos,
    pause: Nanos,
)
    ensures
        following(Phase::Starting, false, searching, window, pause) == (
            Phase::Clearing,
            ScanAction::Stop,
        ),
        following(Phase::Clearing, ok, searching, window, pause) == (
            Phase::Retrying,
            ScanAction::Start,
        ),
        following(Phase::Retrying, true, searching, window, pause) == (
            Phase::Burst,
            ScanAction::Wait(window),
        ),
        ({
            let (phase, action) = following(Phase::Retrying, false, searching, window, pause);
            &&& phase == Phase::Rest
            &&& action is Wait
            &&& action->Wait_0 >= pause && action->Wait_0 >= 5_000_000_000
            &&& action->Wait_0 == pause || action->Wait_0 == 5_000_000_000
        }),
{
}

} // verus!
