//! What holds of a bridge: which light gets what, and when a universe counts as lost.

use vstd::prelude::*;
use super::{
    clocked, dispatched, edge, idle_ms, losses, safe, safe_changes, sink_for, startup_state,
    updates, Edge, FailsafeAction, Sink,
};
use crate::config::LightCfg;
use crate::profile::{mapped, Profile};
use crate::protocol::{LightState, Mode};

verus! {

/// How many channels a light of each profile takes.
pub open spec fn footprint(profile: Profile) -> int {
    match profile {
        Profile::Cct => 2,
        Profile::CctGm | Profile::Hsi | Profile::Rgb => 3,
        Profile::Rgbcw | Profile::Full => 5,
        Profile::Advanced => 10,
        Profile::Pixel => 20,
    }
}

/// The idle time of a universe is the time since its last ArtDmx: with a clock that was
/// set at `seen`, exactly `now - seen`; without one, the time since the start.
pub proof fn law_idle_time(clocks: Map<u16, u64>, universe: u16, now_ms: u64)
    ensures
        clocks.contains_key(universe) && now_ms >= clocks[universe] ==> idle_ms(
            clocks,
            universe,
            now_ms,
        ) == now_ms - clocks[universe],
        clocks.contains_key(universe) && now_ms < clocks[universe] ==> idle_ms(
            clocks,
            universe,
            now_ms,
        ) == 0,
        !clocks.contains_key(universe) ==> idle_ms(clocks, universe, now_ms) == now_ms,
{
}

/// When the last ArtDmx of a universe came; 0 where it has no clock.
pub open spec fn last_heard(clocks: Map<u16, u64>, universe: u16) -> int {
    if clocks.contains_key(universe) {
        clocks[universe] as int
    } else {
        0
    }
}

/// A tick reports, of universes watched in order, exactly those that have been silent
/// for the timeout or longer: adding one more universe to the watch adds one loss behind
/// the others where `now - seen >= timeout`, and nothing otherwise. The loss names the
/// universe, counts the whole seconds of silence, and is the first one unless the
/// universe was known to be lost.
pub proof fn law_a_tick_reports_the_silent(
    universes: Seq<u16>,
    announced: Seq<bool>,
    timeout_ms: u64,
    clocks: Map<u16, u64>,
    now_ms: u64,
    n: nat,
)
    requires
        timeout_ms > 0,
        n < universes.len() == announced.len(),
    ensures
        ({
            let before = losses(universes, announced, timeout_ms, clocks, now_ms, n);
            let after = losses(universes, announced, timeout_ms, clocks, now_ms, n + 1);
            let u = universes[n as int];
            let idle = now_ms - last_heard(clocks, u);
            &&& losses(universes, announced, timeout_ms, clocks, now_ms, 0).len() == 0
            &&& idle < timeout_ms ==> after == before
            &&& idle >= timeout_ms ==> {
                &&& after.len() == before.len() + 1
                &&& after.drop_last() == before
                &&& after.last().universe == u
                &&& after.last().idle_secs * 1000 <= idle < after.last().idle_secs * 1000 + 1000
                &&& after.last().first == !announced[n as int]
            }
        }),
{
    let before = losses(universes, announced, timeout_ms, clocks, now_ms, n);
    let after = losses(universes, announced, timeout_ms, clocks, now_ms, n + 1);
    if now_ms - last_heard(clocks, universes[n as int]) >= timeout_ms {
        assert(after.drop_last() =~= before);
    }
}

/// A watched universe is among the losses of a tick exactly when `now - seen >= timeout`,
/// `seen` being the last recorded arrival.
pub proof fn law_a_universe_is_lost_after_the_timeout(
    universes: Seq<u16>,
    announced: Seq<bool>,
    timeout_ms: u64,
    clocks: Map<u16, u64>,
    now_ms: u64,
    n: nat,
    u: u16,
)
    requires
        timeout_ms > 0,
        n <= universes.len() == announced.len(),
        universes.take(n as int).contains(u),
    ensures
        ({
            let l = losses(universes, announced, timeout_ms, clocks, now_ms, n);
            &&& (exists|j: int| 0 <= j < l.len() && (#[trigger] l[j]).universe == u) <==> now_ms
                - last_heard(clocks, u) >= timeout_ms
            &&& forall|j: int|
                0 <= j < l.len() && (#[trigger] l[j]).universe == u ==> l[j].idle_secs == (now_ms
                    - last_heard(clocks, u)) / 1000
        }),
    decreases n,
{
    let l = losses(universes, announced, timeout_ms, clocks, now_ms, n);
    let i = choose|i: int| 0 <= i < n && universes.take(n as int)[i] == u;
    assert(n > 0 && universes[i] == u);
    let m = (n - 1) as nat;
    let init = losses(universes, announced, timeout_ms, clocks, now_ms, m);
    law_a_tick_reports_the_silent(universes, announced, timeout_ms, clocks, now_ms, m);
    lemma_losses_are_silent(universes, announced, timeout_ms, clocks, now_ms, n);
    if now_ms - last_heard(clocks, u) >= timeout_ms {
        if universes[n - 1] == u {
            assert(l.last().universe == u);
        } else {
            assert(universes.take(m as int)[i] == u);
            law_a_universe_is_lost_after_the_timeout(
                universes,
                announced,
                timeout_ms,
                clocks,
                now_ms,
                m,
                u,
            );
            let j = choose|j: int| 0 <= j < init.len() && (#[trigger] init[j]).universe == u;
            assert(l[j] == init[j]) by {
                if l != init {
                    assert(l.drop_last()[j] == init[j]);
                }
            }
        }
    }
}

proof fn lemma_losses_are_silent(
    universes: Seq<u16>,
    announced: Seq<bool>,
    timeout_ms: u64,
    clocks: Map<u16, u64>,
    now_ms: u64,
    n: nat,
)
    requires
        timeout_ms > 0,
        n <= universes.len() == announced.len(),
    ensures
        ({
            let l = losses(universes, announced, timeout_ms, clocks, now_ms, n);
            forall|j: int|
                0 <= j < l.len() ==> {
                    let idle = now_ms - last_heard(clocks, (#[trigger] l[j]).universe);
                    idle >= timeout_ms && l[j].idle_secs == idle / 1000
                }
        }),
    decreases n,
{
    if n > 0 {
        let m = (n - 1) as nat;
        lemma_losses_are_silent(universes, announced, timeout_ms, clocks, now_ms, m);
        law_a_tick_reports_the_silent(universes, announced, timeout_ms, clocks, now_ms, m);
        let l = losses(universes, announced, timeout_ms, clocks, now_ms, n);
        let init = losses(universes, announced, timeout_ms, clocks, now_ms, m);
        assert forall|j: int| 0 <= j < l.len() implies {
            let idle = now_ms - last_heard(clocks, (#[trigger] l[j]).universe);
            idle >= timeout_ms && l[j].idle_secs == idle / 1000
        } by {
            if l != init && j < init.len() {
                assert(l.drop_last()[j] == init[j]);
            }
        }
    }
}

/// After ArtDmx for a universe at `t`, and none since, every tick from `t + timeout` on
/// lists it, with the seconds since `t`; no tick before that does.
pub proof fn law_silence_counts_from_the_last_arrival(
    universes: Seq<u16>,
    announced: Seq<bool>,
    timeout_ms: u64,
    clocks: Map<u16, u64>,
    u: u16,
    t: u64,
    now_ms: u64,
)
    requires
        timeout_ms > 0,
        universes.len() == announced.len(),
        universes.contains(u),
        clocks.contains_key(u),
    ensures
        ({
            let l = losses(
                universes,
                announced,
                timeout_ms,
                clocked(clocks, u, t),
                now_ms,
                universes.len(),
            );
            &&& now_ms >= t + timeout_ms ==> exists|j: int|
                0 <= j < l.len() && (#[trigger] l[j]).universe == u && l[j].idle_secs == (now_ms - t)
                    / 1000
            &&& now_ms < t + timeout_ms ==> forall|j: int|
                0 <= j < l.len() ==> (#[trigger] l[j]).universe != u
        }),
{
    assert(universes.take(universes.len() as int) =~= universes);
    law_a_universe_is_lost_after_the_timeout(
        universes,
        announced,
        timeout_ms,
        clocked(clocks, u, t),
        now_ms,
        universes.len(),
        u,
    );
}

/// ArtDmx sets the clock of its universe and no other, and never adds one.
pub proof fn law_an_arrival_sets_one_clock(m: Map<u16, u64>, u: u16, t: u64, other: u16)
    ensures
        m.contains_key(u) ==> clocked(m, u, t)[u] == t,
        clocked(m, u, t).contains_key(other) == m.contains_key(other),
        other != u && m.contains_key(other) ==> clocked(m, u, t)[other] == m[other],
{
}

/// A light reads its own channels: with a start channel `a` and a profile `w` wide it
/// shows what bytes `a - 1` to `a + w - 2` say, and keeps its patch. Where the data ends
/// before that it keeps its state. It is starved exactly then, and an edge is reported
/// exactly when that changes.
pub proof fn law_a_light_reads_its_channels(s: Sink, data: Seq<u8>)
    requires
        s.address >= 1,
    ensures
        ({
            let t = dispatched(s, data);
            let w = footprint(s.profile);
            let end = s.address - 1 + w;
            &&& t.universe == s.universe && t.address == s.address && t.profile == s.profile && t.cct
                == s.cct
            &&& end <= data.len() ==> {
                &&& !t.starved
                &&& t.state == mapped(s.profile, data.subrange(s.address - 1, end), s.cct)
            }
            &&& end > data.len() ==> t.starved && t.state == s.state
            &&& edge(s, data) == Edge::Starved <==> t.starved && !s.starved
            &&& edge(s, data) == Edge::Recovered <==> !t.starved && s.starved
            &&& edge(s, data) == Edge::Same <==> t.starved == s.starved
        }),
{
}

/// A light without a start channel is never reached.
pub proof fn law_address_zero_reaches_nothing(s: Sink, data: Seq<u8>)
    requires
        s.address == 0,
    ensures
        dispatched(s, data).starved,
        dispatched(s, data).state == s.state,
{
}

/// Channels that are not a light's own do not matter to it.
pub proof fn law_other_channels_do_not_matter(s: Sink, one: Seq<u8>, two: Seq<u8>)
    requires
        s.address >= 1,
        one.len() >= s.address - 1 + footprint(s.profile),
        two.len() >= s.address - 1 + footprint(s.profile),
        forall|i: int|
            s.address - 1 <= i < s.address - 1 + footprint(s.profile) ==> one[i] == two[i],
    ensures
        dispatched(s, one) == dispatched(s, two),
{
    let (a, b) = (s.address - 1, s.address - 1 + footprint(s.profile));
    assert(one.subrange(a, b) =~= two.subrange(a, b));
}

/// A dispatch updates exactly the lights of its universe, in order: one more light adds
/// one update behind the others where it is patched to the universe, and none otherwise.
/// The update says which light it is, what it shows now and what changed about its data.
pub proof fn law_a_dispatch_reaches_its_universe(
    lights: Seq<Sink>,
    universe: u16,
    data: Seq<u8>,
    n: nat,
)
    requires
        n < lights.len() <= usize::MAX,
    ensures
        ({
            let before = updates(lights, universe, data, n);
            let after = updates(lights, universe, data, n + 1);
            let s = lights[n as int];
            &&& updates(lights, universe, data, 0).len() == 0
            &&& s.universe != universe ==> after == before
            &&& s.universe == universe ==> {
                &&& after.len() == before.len() + 1
                &&& after.drop_last() == before
                &&& after.last().light == n
                &&& after.last().state == dispatched(s, data).state
                &&& after.last().edge == edge(s, data)
            }
        }),
{
    let before = updates(lights, universe, data, n);
    let after = updates(lights, universe, data, n + 1);
    if lights[n as int].universe == universe {
        assert(after.drop_last() =~= before);
    }
}

/// A blackout sets the brightness to 0 and a power-off the power to off; everything else
/// about the state stays.
pub proof fn law_a_failsafe_touches_one_thing(st: LightState)
    ensures
        safe(FailsafeAction::Blackout, st).brightness == 0,
        (LightState { brightness: st.brightness, ..safe(FailsafeAction::Blackout, st) }) == st,
        !safe(FailsafeAction::PowerOff, st).power,
        (LightState { power: st.power, ..safe(FailsafeAction::PowerOff, st) }) == st,
{
}

/// A failsafe reports the lights of its universe that it changed, in order: under a
/// blackout those that were not dark, under a power-off those that were on.
pub proof fn law_a_failsafe_reports_its_changes(
    lights: Seq<Sink>,
    universe: u16,
    action: FailsafeAction,
    n: nat,
)
    requires
        n < lights.len() <= usize::MAX,
    ensures
        ({
            let before = safe_changes(lights, universe, action, n);
            let after = safe_changes(lights, universe, action, n + 1);
            let s = lights[n as int];
            let acts = s.universe == universe && if action == FailsafeAction::Blackout {
                s.state.brightness > 0
            } else {
                s.state.power
            };
            &&& safe_changes(lights, universe, action, 0).len() == 0
            &&& !acts ==> after == before
            &&& acts ==> {
                &&& after.len() == before.len() + 1
                &&& after.drop_last() == before
                &&& after.last().0 == n
                &&& action == FailsafeAction::Blackout ==> after.last().1 == (LightState {
                    brightness: 0,
                    ..s.state
                })
                &&& action == FailsafeAction::PowerOff ==> after.last().1 == (LightState {
                    power: false,
                    ..s.state
                })
            }
        }),
{
    let before = safe_changes(lights, universe, action, n);
    let after = safe_changes(lights, universe, action, n + 1);
    let s = lights[n as int];
    if action == FailsafeAction::Blackout && s.state.brightness == 0 {
        assert(safe(action, s.state) == s.state);
    }
    if action == FailsafeAction::PowerOff && !s.state.power {
        assert(safe(action, s.state) == s.state);
    }
    if s.universe == universe && safe(action, s.state) != s.state {
        assert(after.drop_last() =~= before);
    }
}

/// A light starts with half-bright warm white and nothing else on; it is powered where
/// it is to be powered on connect, and its power is left alone otherwise.
pub proof fn law_a_light_starts_quietly(power_on_connect: bool)
    ensures
        ({
            let st = startup_state(power_on_connect);
            &&& st.power == power_on_connect
            &&& st.seed == !power_on_connect
            &&& st.mode == Mode::Cct
            &&& st.brightness == 50
            &&& st.cct == 32
            &&& st.gm == 0
            &&& st.hue == 0 && st.sat == 0
            &&& st.seg_count == 0
        }),
{
}

/// A light is patched where its configuration entry says, and starts fed.
pub proof fn law_a_light_is_patched_as_configured(l: LightCfg)
    ensures
        sink_for(l).universe == l.universe,
        sink_for(l).address == l.address,
        Profile::named(l.profile@) matches Some(p) ==> sink_for(l).profile == p,
        sink_for(l).cct.min == l.cct_min,
        sink_for(l).cct.max == l.cct_max,
        !sink_for(l).starved,
        sink_for(l).state.power == l.power_on_connect,
        sink_for(l).state.seed == !l.power_on_connect,
{
}

} // verus!
