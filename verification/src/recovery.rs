//! Recovery from a stale device record: a light that the system's Bluetooth stack
//! reports as connected although its link is gone.
//!
//! The ladder has two steps, power-cycling the adapter and restarting the daemon.
//! Both hit every light, so each is rate-limited, and the record is checked before
//! anything runs and after every step.

use vstd::prelude::*;
use vstd::string::*;
use crate::clock::{elapsed, since, Nanos};
use crate::text::{chars_of, lower, spells, string_of, to_lower, trim, trimmed};

verus! {

broadcast use vstd::string::group_string_axioms;

/// How far the recovery ladder may go.
#[derive(Debug, Clone, Copy, PartialEq, Eq, Structural)]
pub enum RecoveryMode {
    /// Power-cycle the adapter; if the record is still stale, restart the daemon.
    Auto,
    /// Power-cycle the adapter only.
    Adapter,
    /// Never touch the adapter or the daemon.
    Off,
}

/// The mode with a name; `None` where no mode has it.
pub open spec fn mode_called(s: Seq<char>) -> Option<RecoveryMode> {
    if s == "auto"@ {
        Some(RecoveryMode::Auto)
    } else if s == "adapter"@ {
        Some(RecoveryMode::Adapter)
    } else if s == "off"@ {
        Some(RecoveryMode::Off)
    } else {
        None
    }
}

impl RecoveryMode {
    /// The names of the modes.
    pub const NAMES: [&'static str; 3] = ["auto", "adapter", "off"];

    /// The mode of a config text: white space around it and the case of its ASCII
    /// letters do not count.
    pub fn parse(s: &str) -> (r: Option<Self>)
        ensures
            r == mode_called(lower(trimmed(s@))),
    {
        let chars = chars_of(s);
        let core = string_of(trim(&chars));
        let name = to_lower(core.as_str());
        if spells(&name, "auto") {
            Some(RecoveryMode::Auto)
        } else if spells(&name, "adapter") {
            Some(RecoveryMode::Adapter)
        } else if spells(&name, "off") {
            Some(RecoveryMode::Off)
        } else {
            None
        }
    }

    /// The name of this mode.
    pub open spec fn name(self) -> Seq<char> {
        match self {
            RecoveryMode::Auto => "auto"@,
            RecoveryMode::Adapter => "adapter"@,
            RecoveryMode::Off => "off"@,
        }
    }

    /// The name of this mode.
    pub fn as_str(self) -> (r: &'static str)
        ensures
            r@ == self.name(),
    {
        match self {
            RecoveryMode::Auto => "auto",
            RecoveryMode::Adapter => "adapter",
            RecoveryMode::Off => "off",
        }
    }
}

/// The name of a mode parses back to that mode.
pub proof fn law_recovery_name_parses_back(m: RecoveryMode)
    ensures
        mode_called(lower(trimmed(m.name()))) == Some(m),
{
    reveal_strlit("auto");
    reveal_strlit("adapter");
    reveal_strlit("off");
    assert("auto"@.len() == 4 && "adapter"@.len() == 7 && "off"@.len() == 3);
    assert("auto"@[0] == 'a' && "auto"@.last() == 'o');
    assert("adapter"@[0] == 'a' && "adapter"@.last() == 'r');
    assert("off"@[0] == 'o' && "off"@.last() == 'f');
    assert(trimmed(m.name()) == m.name());
    assert(lower(m.name()) =~= m.name());
}

/// One rung of the ladder.
#[derive(Debug, Clone, Copy, PartialEq, Eq, Structural)]
pub enum Step {
    CycleAdapter,
    RestartDaemon,
}

impl Step {
    /// What the step is called in logs.
    pub fn as_str(self) -> (r: &'static str)
        ensures
            r@ == (match self {
                Step::CycleAdapter => "adapter power-cycle"@,
                Step::RestartDaemon => "bluetoothd restart"@,
            }),
    {
        match self {
            Step::CycleAdapter => "adapter power-cycle",
            Step::RestartDaemon => "bluetoothd restart",
        }
    }
}

/// Least time between two adapter power-cycles: 120 s.
pub const ADAPTER_CYCLE_MIN_GAP: Nanos = 120_000_000_000;

/// Least time between two daemon restarts: 600 s.
pub const DAEMON_RESTART_MIN_GAP: Nanos = 600_000_000_000;

/// How long a step is given to take effect, seconds.
pub const SETTLE_SECS: u64 = 4;

/// When each step last ran, for all lights.
#[derive(Debug, Clone, Copy, PartialEq, Eq, Structural)]
pub struct History {
    pub last_adapter_cycle: Option<Nanos>,
    pub last_daemon_restart: Option<Nanos>,
}

impl Default for History {
    fn default() -> (r: Self)
        ensures
            r == (History { last_adapter_cycle: None, last_daemon_restart: None }),
    {
        History { last_adapter_cycle: None, last_daemon_restart: None }
    }
}

/// Whether a rate-limited step is due: it never ran, or the gap has passed. A
/// clock that runs backwards makes nothing due.
pub open spec fn is_due(last: Option<Nanos>, now: Nanos, gap: Nanos) -> bool {
    last is None || elapsed(now, last->0) >= gap
}

fn due(last: Option<Nanos>, now: Nanos, gap: Nanos) -> (r: bool)
    ensures
        r == is_due(last, now, gap),
{
    match last {
        None => true,
        Some(t) => since(now, t) >= gap,
    }
}

/// The steps that a mode permits and that are due, in order.
pub open spec fn planned(mode: RecoveryMode, h: History, now: Nanos) -> Seq<Step> {
    let cycle = mode != RecoveryMode::Off && is_due(
        h.last_adapter_cycle,
        now,
        ADAPTER_CYCLE_MIN_GAP,
    );
    let restart = mode == RecoveryMode::Auto && is_due(
        h.last_daemon_restart,
        now,
        DAEMON_RESTART_MIN_GAP,
    );
    if cycle && restart {
        seq![Step::CycleAdapter, Step::RestartDaemon]
    } else if cycle {
        seq![Step::CycleAdapter]
    } else if restart {
        seq![Step::RestartDaemon]
    } else {
        seq![]
    }
}

/// The steps one episode may take, in order: `Off` none, `Adapter` at most the
/// power-cycle, `Auto` the power-cycle and then the restart, each only if its gap
/// has passed.
pub fn plan(mode: RecoveryMode, history: History, now: Nanos) -> (r: Vec<Step>)
    ensures
        r@ == planned(mode, history, now),
{
    let mut steps: Vec<Step> = Vec::new();
    if mode == RecoveryMode::Off {
        assert(steps@ =~= planned(mode, history, now));
        return steps;
    }
    if due(history.last_adapter_cycle, now, ADAPTER_CYCLE_MIN_GAP) {
        steps.push(Step::CycleAdapter);
    }
    if mode == RecoveryMode::Auto && due(history.last_daemon_restart, now, DAEMON_RESTART_MIN_GAP) {
        steps.push(Step::RestartDaemon);
    }
    assert(steps@ =~= planned(mode, history, now));
    steps
}

/// What one recovery request achieved.
#[derive(Debug, Clone, Copy, PartialEq, Eq, Structural)]
pub enum Outcome {
    /// The record had cleared before any step ran.
    AlreadyClear,
    /// A step cleared it.
    Cleared(Step),
    /// Every permitted step ran and the record is still stale.
    StillStale,
    /// Every permitted step ran too recently.
    RateLimited,
    /// Recovery is off.
    Disabled,
}

/// What the application does next.
#[derive(Debug, Clone, Copy, PartialEq, Eq, Structural)]
pub enum Action {
    /// Run a step; if that succeeds, let it settle and check the record.
    Attempt(Step),
    /// The episode is over.
    Finish(Outcome),
}

/// What came of a step.
#[derive(Debug, Clone, Copy, PartialEq, Eq, Structural)]
pub enum Event {
    /// The step itself failed.
    Failed,
    /// The step ran and settled; whether the record is still stale.
    Settled { stale: bool },
}

/// The history after a step was begun.
pub open spec fn marked(h: History, step: Step, now: Nanos) -> History {
    match step {
        Step::CycleAdapter => History { last_adapter_cycle: Some(now), ..h },
        Step::RestartDaemon => History { last_daemon_restart: Some(now), ..h },
    }
}

/// The recovery gate for all lights: the mode, when each step last ran, and the
/// steps that the running episode has left.
#[derive(Debug)]
pub struct StaleLinkRecovery {
    mode: RecoveryMode,
    history: History,
    left: Vec<Step>,
}

impl StaleLinkRecovery {
    /// When each step last ran.
    pub closed spec fn history_of(&self) -> History {
        self.history
    }

    /// The mode.
    pub closed spec fn mode_of(&self) -> RecoveryMode {
        self.mode
    }

    /// The steps the running episode has left.
    pub closed spec fn left_of(&self) -> Seq<Step> {
        self.left@
    }

    /// At most the restart is left once an episode has begun, and only in the mode that
    /// permits it.
    pub open spec fn wf(&self) -> bool {
        ||| self.left_of() == Seq::<Step>::empty()
        ||| self.mode_of() == RecoveryMode::Auto && self.left_of() == seq![Step::RestartDaemon]
    }

    /// A gate that has never run a step.
    pub fn new(mode: RecoveryMode) -> (r: Self)
        ensures
            r.wf(),
            r.mode_of() == mode,
            r.history_of() == (History { last_adapter_cycle: None, last_daemon_restart: None }),
            r.left_of() == Seq::<Step>::empty(),
    {
        StaleLinkRecovery { mode, history: History::default(), left: Vec::new() }
    }

    /// The mode.
    pub fn mode(&self) -> (r: RecoveryMode)
        ensures
            r == self.mode_of(),
    {
        self.mode
    }

    /// When each step last ran.
    pub fn history(&self) -> (r: History)
        ensures
            r == self.history_of(),
    {
        self.history
    }

    /// Begin an episode. `stale` is the record as it is now; no step runs for a
    /// record that has cleared.
    pub fn begin(&mut self, stale: bool, now: Nanos) -> (r: Action)
        ensures
            final(self).wf(),
            final(self).mode_of() == old(self).mode_of(),
            ({
                let steps = planned(old(self).mode_of(), old(self).history_of(), now);
                &&& !stale ==> r == Action::Finish(Outcome::AlreadyClear)
                &&& stale && old(self).mode_of() == RecoveryMode::Off ==> r == Action::Finish(
                    Outcome::Disabled,
                )
                &&& stale && old(self).mode_of() != RecoveryMode::Off && steps.len() == 0 ==> r
                    == Action::Finish(Outcome::RateLimited)
                &&& stale && steps.len() > 0 ==> {
                    &&& r == Action::Attempt(steps[0])
                    &&& final(self).history_of() == marked(old(self).history_of(), steps[0], now)
                    &&& final(self).left_of() == steps.skip(1)
                }
                &&& r is Finish ==> final(self).history_of() == old(self).history_of()
                    && final(self).left_of() == Seq::<Step>::empty()
            }),
    {
        self.left = Vec::new();
        if !stale {
            return Action::Finish(Outcome::AlreadyClear);
        }
        if self.mode == RecoveryMode::Off {
            return Action::Finish(Outcome::Disabled);
        }
        self.left = plan(self.mode, self.history, now);
        if self.left.len() == 0 {
            assert(self.left@ =~= Seq::<Step>::empty());
            return Action::Finish(Outcome::RateLimited);
        }
        proof {
            let steps = self.left@;
            if steps.len() == 1 {
                assert(steps.skip(1) =~= Seq::<Step>::empty());
            } else {
                assert(steps.skip(1) =~= seq![Step::RestartDaemon]);
            }
        }
        self.take(now)
    }

    fn take(&mut self, now: Nanos) -> (r: Action)
        requires
            old(self).left_of().len() > 0,
        ensures
            final(self).mode_of() == old(self).mode_of(),
            r == Action::Attempt(old(self).left_of()[0]),
            final(self).history_of() == marked(
                old(self).history_of(),
                old(self).left_of()[0],
                now,
            ),
            final(self).left_of() == old(self).left_of().skip(1),
    {
        let ghost before = self.left@;
        let step: Step = self.left.remove(0);
        assert(self.left@ =~= before.skip(1));
        match step {
            Step::CycleAdapter => {
                self.history.last_adapter_cycle = Some(now);
            },
            Step::RestartDaemon => {
                self.history.last_daemon_restart = Some(now);
            },
        }
        Action::Attempt(step)
    }

    /// Take in what came of `step`: a cleared record ends the episode; else the
    /// next step follows, if one is left.
    pub fn report(&mut self, step: Step, event: Event, now: Nanos) -> (r: Action)
        requires
            old(self).wf(),
        ensures
            final(self).wf(),
            final(self).mode_of() == old(self).mode_of(),
            r is Attempt ==> old(self).mode_of() == RecoveryMode::Auto && r == Action::Attempt(
                Step::RestartDaemon,
            ),
            final(self).left_of() == Seq::<Step>::empty(),
            event == (Event::Settled { stale: false }) ==> r == Action::Finish(
                Outcome::Cleared(step),
            ) && final(self).history_of() == old(self).history_of(),
            event != (Event::Settled { stale: false }) ==> if old(self).left_of().len() == 0 {
                &&& r == Action::Finish(Outcome::StillStale)
                &&& final(self).history_of() == old(self).history_of()
            } else {
                &&& r == Action::Attempt(old(self).left_of()[0])
                &&& final(self).history_of() == marked(
                    old(self).history_of(),
                    old(self).left_of()[0],
                    now,
                )
            },
    {
        match event {
            Event::Settled { stale: false } => {
                self.left = Vec::new();
                Action::Finish(Outcome::Cleared(step))
            },
            _ => if self.left.len() == 0 {
                Action::Finish(Outcome::StillStale)
            } else {
                assert(self.left@.skip(1) =~= Seq::<Step>::empty());
                self.take(now)
            },
        }
    }
}

/// The ladder stays inside its mode: nothing when off, never the daemon in
/// adapter mode, and the power-cycle always comes before the restart.
pub proof fn law_ladder_respects_the_mode(mode: RecoveryMode, h: History, now: Nanos)
    ensures
        mode == RecoveryMode::Off ==> planned(mode, h, now).len() == 0,
        mode == RecoveryMode::Adapter ==> !planned(mode, h, now).contains(Step::RestartDaemon),
        planned(mode, h, now).len() <= 2,
        planned(mode, h, now).len() == 2 ==> planned(mode, h, now)[0] == Step::CycleAdapter
            && planned(mode, h, now)[1] == Step::RestartDaemon,
{
}

/// Rate limit: a step that was begun at one moment is not planned again before its
/// gap has passed.
pub proof fn law_steps_are_rate_limited(
    mode: RecoveryMode,
    h: History,
    step: Step,
    began: Nanos,
    now: Nanos,
)
    requires
        elapsed(now, began) < (match step {
            Step::CycleAdapter => ADAPTER_CYCLE_MIN_GAP,
            Step::RestartDaemon => DAEMON_RESTART_MIN_GAP,
        }),
    ensures
        !planned(mode, marked(h, step, began), now).contains(step),
{
}

/// Whether a character may stand in an adapter id: an ASCII letter or digit, or
/// an underscore.
pub open spec fn id_char(c: char) -> bool {
    ('a' <= c && c <= 'z') || ('A' <= c && c <= 'Z') || ('0' <= c && c <= '9') || c == '_'
}

/// Whether a text is an adapter id.
pub open spec fn is_adapter_id(s: Seq<char>) -> bool {
    s.len() > 0 && forall|i: int| 0 <= i < s.len() ==> id_char(#[trigger] s[i])
}

/// A text that is no adapter id.
#[derive(Debug, Clone, Copy, PartialEq, Eq, Structural)]
pub struct BadAdapterId;

/// The object path of an adapter id such as `hci0`. Only characters that may
/// stand in a path element are accepted, so that an unexpected id cannot name
/// something else.
pub fn adapter_object_path(adapter_id: &str) -> (r: Result<String, BadAdapterId>)
    ensures
        r is Ok <==> is_adapter_id(adapter_id@),
        r matches Ok(p) ==> p@ == "/org/bluez/"@ + adapter_id@,
{
    let chars = chars_of(adapter_id);
    if chars.len() == 0 {
        return Err(BadAdapterId);
    }
    let mut i: usize = 0;
    while i < chars.len()
        invariant
            chars@ == adapter_id@,
            i <= chars@.len(),
            forall|k: int| 0 <= k < i ==> id_char(#[trigger] chars@[k]),
        decreases chars.len() - i,
    {
        let c: char = chars[i];
        let ok = ('a' <= c && c <= 'z') || ('A' <= c && c <= 'Z') || ('0' <= c && c <= '9') || c
            == '_';
        if !ok {
            assert(!id_char(adapter_id@[i as int]));
            return Err(BadAdapterId);
        }
        i += 1;
    }
    let mut path = "/org/bluez/".to_string();
    path.append(adapter_id);
    Ok(path)
}

/// When the steps are planned: the power-cycle unless the mode is off or one began less
/// than 120 s ago, the restart in `auto` alone and unless one began less than 600 s ago.
pub proof fn law_planned_steps(mode: RecoveryMode, h: History, now: Nanos)
    ensures
        planned(mode, h, now).contains(Step::CycleAdapter) <==> mode != RecoveryMode::Off && (
        h.last_adapter_cycle matches Some(t) ==> now - t >= 120_000_000_000),
        planned(mode, h, now).contains(Step::RestartDaemon) <==> mode == RecoveryMode::Auto && (
        h.last_daemon_restart matches Some(t) ==> now - t >= 600_000_000_000),
        planned(mode, h, now).len() <= 2,
        planned(mode, h, now).len() == 2 ==> planned(mode, h, now)[0] == Step::CycleAdapter,
        planned(mode, h, now).no_duplicates(),
{
    let p = planned(mode, h, now);
    if p.len() == 1 {
        assert(p.contains(p[0]));
    }
    if p.len() == 2 {
        assert(p.contains(p[0]) && p.contains(p[1]));
    }
}

/// A step that was begun is stamped, and the other step is not.
pub proof fn law_steps_are_stamped(h: History, now: Nanos)
    ensures
        marked(h, Step::CycleAdapter, now).last_adapter_cycle == Some(now),
        marked(h, Step::CycleAdapter, now).last_daemon_restart == h.last_daemon_restart,
        marked(h, Step::RestartDaemon, now).last_daemon_restart == Some(now),
        marked(h, Step::RestartDaemon, now).last_adapter_cycle == h.last_adapter_cycle,
{
}

/// A mode is chosen by its own name alone.
pub proof fn law_modes_have_one_name(s: Seq<char>)
    ensures
        mode_called(s) == Some(RecoveryMode::Auto) <==> s == "auto"@,
        mode_called(s) == Some(RecoveryMode::Adapter) <==> s == "adapter"@,
        mode_called(s) == Some(RecoveryMode::Off) <==> s == "off"@,
{
    reveal_strlit("auto");
    reveal_strlit("adapter");
    reveal_strlit("off");
    assert("auto"@.len() == 4 && "adapter"@.len() == 7 && "off"@.len() == 3);
}

/// An adapter id holds letters, digits and underscores alone: in particular no slash, no
/// dot and no dash, and it is not empty.
pub proof fn law_adapter_ids(s: Seq<char>)
    ensures
        is_adapter_id(s) <==> s.len() > 0 && forall|i: int|
            0 <= i < s.len() ==> {
                let c = #[trigger] s[i] as int;
                48 <= c <= 57 || 65 <= c <= 90 || c == 95 || 97 <= c <= 122
            },
{
    assert forall|c: char| id_char(c) <==> (48 <= c as int <= 57 || 65 <= c as int <= 90 || c as int
        == 95 || 97 <= c as int <= 122) by {}
    if s.len() > 0 && !is_adapter_id(s) {
        let i = choose|i: int| 0 <= i < s.len() && !id_char(#[trigger] s[i]);
        assert(!id_char(s[i]));
    }
}

} // verus!
