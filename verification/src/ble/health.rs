//! Whether the platform's Bluetooth session is usable at all.
//!
//! A light's own retries see only their own failures. Every shared call reports its
//! outcome here, and a watchdog turns "nothing has worked for a long time", or the
//! one error that no later call can get past, into a restart of the session.

use vstd::prelude::*;
use vstd::string::*;
use crate::clock::{millis, Nanos};
use crate::text::{chars_of, contains, has_part};

verus! {

/// "Not set" among the millisecond stamps.
pub const UNSET: u64 = u64::MAX;

/// How long the session may fail without a single success before it counts as dead.
pub const STACK_DEAD_AFTER: Nanos = 120_000_000_000;

/// What the shared calls have reported.
#[derive(Debug, Clone, Copy, PartialEq, Eq, Structural)]
pub struct StackHealth {
    /// When a shared call last succeeded, in milliseconds.
    pub last_ok_ms: u64,
    /// When the present run of failures began.
    pub streak_start_ms: u64,
    /// Whether the error of a poisoned connection has been seen.
    pub poisoned: bool,
}

/// A session of which nothing is known yet.
pub open spec fn unknown_health() -> StackHealth {
    StackHealth { last_ok_ms: UNSET, streak_start_ms: UNSET, poisoned: false }
}

impl StackHealth {
    /// A session of which nothing is known yet.
    pub fn new() -> (r: Self)
        ensures
            r == unknown_health(),
    {
        StackHealth { last_ok_ms: UNSET, streak_start_ms: UNSET, poisoned: false }
    }
}

/// The health after a success.
pub open spec fn after_ok(h: StackHealth, now_ms: u64) -> StackHealth {
    StackHealth { last_ok_ms: now_ms, streak_start_ms: UNSET, poisoned: h.poisoned }
}

/// The health after a failure: it begins a run of failures if none is on, and a
/// poisoned connection stays poisoned.
pub open spec fn after_error(h: StackHealth, now_ms: u64, poison: bool) -> StackHealth {
    StackHealth {
        last_ok_ms: h.last_ok_ms,
        streak_start_ms: if h.streak_start_ms == UNSET {
            now_ms
        } else {
            h.streak_start_ms
        },
        poisoned: h.poisoned || poison,
    }
}

/// A shared call succeeded.
pub fn note_ok(health: &mut StackHealth, now_ms: u64)
    ensures
        *final(health) == after_ok(*old(health), now_ms),
{
    health.last_ok_ms = now_ms;
    health.streak_start_ms = UNSET;
}

/// Whether a text is that of the bus refusing a call because the connection has too
/// many calls without an answer.
pub open spec fn refused_for_good(text: Seq<char>) -> bool {
    has_part(text, "maximum number of pending replies"@) || has_part(text, "LimitsExceeded"@)
}

/// Whether a chain of causes holds that refusal.
pub open spec fn bus_poisoned(causes: Seq<String>) -> bool {
    exists|i: int| 0 <= i < causes.len() && refused_for_good(#[trigger] causes[i]@)
}

/// Whether an error, given as the texts of its chain of causes, is the bus refusing
/// a call for good: no call of that connection succeeds again.
pub fn is_bus_poisoned(causes: &[String]) -> (r: bool)
    ensures
        r == bus_poisoned(causes@),
{
    let pending = chars_of("maximum number of pending replies");
    let limits = chars_of("LimitsExceeded");
    let mut i: usize = 0;
    while i < causes.len()
        invariant
            i <= causes@.len(),
            pending@ == "maximum number of pending replies"@,
            limits@ == "LimitsExceeded"@,
            forall|k: int| 0 <= k < i ==> !refused_for_good(#[trigger] causes@[k]@),
        decreases causes@.len() - i,
    {
        let text = chars_of(causes[i].as_str());
        if contains(&text, &pending) || contains(&text, &limits) {
            assert(refused_for_good(causes@[i as int]@));
            return true;
        }
        i += 1;
    }
    false
}

/// A shared call failed, with the texts of the error's chain of causes.
pub fn note_error(health: &mut StackHealth, now_ms: u64, causes: &[String])
    ensures
        *final(health) == after_error(*old(health), now_ms, bus_poisoned(causes@)),
{
    if health.streak_start_ms == UNSET {
        health.streak_start_ms = now_ms;
    }
    if is_bus_poisoned(causes) {
        health.poisoned = true;
    }
}

/// Forget everything: the session starts anew.
pub fn reset_stack_health(health: &mut StackHealth)
    ensures
        *final(health) == unknown_health(),
{
    *health = StackHealth::new();
}

/// The watchdog's reading of the session.
#[derive(Debug, Clone, Copy, PartialEq, Eq, Structural)]
pub enum StackVerdict {
    Healthy,
    /// The connection is poisoned: replace the session now.
    Poisoned,
    /// Nothing has succeeded for at least [`STACK_DEAD_AFTER`].
    Dead { failing_for: Nanos },
}

/// Time from one stamp to another, 0 where the clock appears to run backwards.
pub open spec fn stamp_gap(now_ms: u64, then_ms: u64) -> int {
    if now_ms >= then_ms {
        now_ms - then_ms
    } else {
        0
    }
}

/// What the stamps say: poisoned outright; dead where the run of failures is at
/// least `limit` long and no success falls into it; healthy otherwise.
pub open spec fn reading(
    now_ms: u64,
    last_ok_ms: u64,
    streak_start_ms: u64,
    poisoned: bool,
    limit: u64,
) -> StackVerdict {
    let failing_for = stamp_gap(now_ms, streak_start_ms);
    if poisoned {
        StackVerdict::Poisoned
    } else if streak_start_ms != UNSET && failing_for >= limit && (last_ok_ms == UNSET
        || stamp_gap(now_ms, last_ok_ms) >= limit) {
        StackVerdict::Dead { failing_for: (failing_for * 1_000_000) as Nanos }
    } else {
        StackVerdict::Healthy
    }
}

/// The verdict on a session from its stamps. All times in milliseconds but
/// `dead_after`.
pub fn verdict(
    now_ms: u64,
    last_ok_ms: u64,
    streak_start_ms: u64,
    poisoned: bool,
    dead_after: Nanos,
) -> (r: StackVerdict)
    ensures
        r == reading(
            now_ms,
            last_ok_ms,
            streak_start_ms,
            poisoned,
            (dead_after / 1_000_000) as u64,
        ),
{
    if poisoned {
        return StackVerdict::Poisoned;
    }
    if streak_start_ms == UNSET {
        return StackVerdict::Healthy;
    }
    let failing_for_ms: u64 = now_ms.saturating_sub(streak_start_ms);
    let since_ok_ms: u64 = if last_ok_ms == UNSET {
        u64::MAX
    } else {
        now_ms.saturating_sub(last_ok_ms)
    };
    let limit: u64 = (dead_after / 1_000_000) as u64;
    if failing_for_ms >= limit && since_ok_ms >= limit {
        StackVerdict::Dead { failing_for: millis(failing_for_ms) }
    } else {
        StackVerdict::Healthy
    }
}

/// The present verdict on a session.
pub open spec fn health_verdict(h: StackHealth, now_ms: u64) -> StackVerdict {
    reading(now_ms, h.last_ok_ms, h.streak_start_ms, h.poisoned, 120_000)
}

/// The present verdict on the shared session.
pub fn stack_verdict(health: &StackHealth, now_ms: u64) -> (r: StackVerdict)
    ensures
        r == health_verdict(*health, now_ms),
{
    verdict(
        now_ms,
        health.last_ok_ms,
        health.streak_start_ms,
        health.poisoned,
        STACK_DEAD_AFTER,
    )
}

/// One success clears any run of failures: until the next failure the session is
/// healthy, unless it is poisoned.
pub proof fn law_success_keeps_the_session(h: StackHealth, ok_ms: u64, now_ms: u64)
    ensures
        health_verdict(after_ok(h, ok_ms), now_ms) == if h.poisoned {
            StackVerdict::Poisoned
        } else {
            StackVerdict::Healthy
        },
{
}

/// A poisoned session stays poisoned whatever is reported after; only a reset clears
/// it.
pub proof fn law_poison_is_latched(h: StackHealth, poison: bool, at_ms: u64, now_ms: u64)
    requires
        h.poisoned,
    ensures
        health_verdict(after_ok(h, at_ms), now_ms) == StackVerdict::Poisoned,
        health_verdict(after_error(h, at_ms, poison), now_ms) == StackVerdict::Poisoned,
        health_verdict(unknown_health(), now_ms) == StackVerdict::Healthy,
{
}

/// A run of ordinary failures is dead exactly once it has lasted the whole limit, with no
/// success in that time: whatever number of failures is reported, the first of them fixes
/// the start.
pub proof fn law_only_a_long_run_is_dead(h: StackHealth, first_ms: u64, then_ms: u64, now_ms: u64)
    requires
        !h.poisoned,
        h.streak_start_ms == UNSET,
        first_ms != UNSET,
    ensures
        ({
            let failed = after_error(after_error(h, first_ms, false), then_ms, false);
            &&& failed == after_error(h, first_ms, false)
            &&& health_verdict(failed, now_ms) is Dead <==> now_ms >= first_ms + 120_000 && (
            h.last_ok_ms == UNSET || now_ms >= h.last_ok_ms + 120_000)
        }),
{
}

/// How a bounded disconnect ended.
#[derive(Debug)]
pub enum DisconnectOutcome<E> {
    Done,
    /// The platform answered with an error. Harmless for a best-effort release.
    Failed(E),
    /// No answer in time: the platform's record of the device is stale, and trying
    /// again would only leave another call without an answer.
    Hung,
}

/// Upper bound on one disconnect.
pub const DISCONNECT_TIMEOUT: Nanos = 10_000_000_000;

/// Classify a bounded disconnect; `None` is a timeout.
pub fn classify_disconnect<E>(res: Option<Result<(), E>>) -> (r: DisconnectOutcome<E>)
    ensures
        r == match res {
            Some(Ok(_)) => DisconnectOutcome::Done,
            Some(Err(e)) => DisconnectOutcome::Failed(e),
            None => DisconnectOutcome::Hung,
        },
{
    match res {
        Some(Ok(())) => DisconnectOutcome::Done,
        Some(Err(e)) => DisconnectOutcome::Failed(e),
        None => DisconnectOutcome::Hung,
    }
}

/// The verdict in its stamps: poisoned outright; dead where failures have gone on for
/// the limit and the last success, if any, is as long ago; healthy otherwise. A dead
/// session says for how long it has failed.
pub proof fn law_verdict_in_stamps(
    now_ms: u64,
    last_ok_ms: u64,
    streak_start_ms: u64,
    poisoned: bool,
    limit: u64,
)
    requires
        limit > 0,
    ensures
        ({
            let v = reading(now_ms, last_ok_ms, streak_start_ms, poisoned, limit);
            &&& v == StackVerdict::Poisoned <==> poisoned
            &&& v is Dead <==> {
                &&& !poisoned
                &&& streak_start_ms != u64::MAX && now_ms - streak_start_ms >= limit
                &&& last_ok_ms == u64::MAX || now_ms - last_ok_ms >= limit
            }
            &&& v matches StackVerdict::Dead { failing_for } ==> failing_for == (now_ms
                - streak_start_ms) * 1_000_000
        }),
{
}

/// A success stamps itself and ends a run of failures; a failure stamps the start of a
/// run, unless one is on; neither takes poison back, and nothing else changes.
pub proof fn law_stamps(h: StackHealth, now_ms: u64, poison: bool)
    ensures
        after_ok(h, now_ms).last_ok_ms == now_ms,
        after_ok(h, now_ms).streak_start_ms == u64::MAX,
        after_ok(h, now_ms).poisoned == h.poisoned,
        after_error(h, now_ms, poison).last_ok_ms == h.last_ok_ms,
        h.streak_start_ms == u64::MAX ==> after_error(h, now_ms, poison).streak_start_ms == now_ms,
        h.streak_start_ms != u64::MAX ==> after_error(h, now_ms, poison).streak_start_ms
            == h.streak_start_ms,
        after_error(h, now_ms, poison).poisoned <==> h.poisoned || poison,
        unknown_health().last_ok_ms == u64::MAX && unknown_health().streak_start_ms == u64::MAX
            && !unknown_health().poisoned,
{
}

/// A chain of causes is the refusal for good where any cause says so, in either of its
/// two forms, whatever stands around it.
pub proof fn law_any_cause_can_poison(
    causes: Seq<String>,
    i: int,
    before: Seq<char>,
    after: Seq<char>,
)
    requires
        0 <= i < causes.len(),
        causes[i]@ == before + "maximum number of pending replies"@ + after || causes[i]@ == before
            + "LimitsExceeded"@ + after,
    ensures
        bus_poisoned(causes),
{
    crate::text::laws::law_parts(
        before,
        "maximum number of pending replies"@,
        after,
        Seq::empty(),
    );
    crate::text::laws::law_parts(before, "LimitsExceeded"@, after, Seq::empty());
    assert(refused_for_good(causes[i]@));
}

} // verus!
