//! The heart of `run`: which light a merged universe reaches with which state, and
//! what the lights do when ArtNet stops.

use std::collections::HashMap;
use vstd::prelude::*;
use crate::artnet::Ip;
use crate::config::validate::{ascii_levels, ascii_levels_of, levels_of, problem, ConfigError};
use crate::config::{Config, FailsafeMode, LightCfg};
use crate::profile::{extract_slice, map_dmx, mapped, CctRange, Profile};
use crate::protocol::{default_state, LightState};

pub mod laws;

verus! {

broadcast use vstd::std_specs::hash::group_hash_axioms;

/// Milliseconds between two looks at the idle clocks.
pub const FAILSAFE_TICK_MS: u64 = 500;

/// The state a light starts with, before any DMX: the default state, switched on
/// where the light is to be powered on connect; else a seed, which leaves the
/// light's power alone.
pub open spec fn startup_state(power_on_connect: bool) -> LightState {
    LightState { power: power_on_connect, seed: !power_on_connect, ..default_state() }
}

/// The state a light starts with.
pub fn initial_state(power_on_connect: bool) -> (r: LightState)
    ensures
        r == startup_state(power_on_connect),
{
    let mut st = LightState::default();
    st.power = power_on_connect;
    st.seed = !power_on_connect;
    st
}

/// One DMX consumer: where a light lives and what it is to show.
#[derive(Debug, Clone, Copy)]
pub struct Sink {
    /// The universe the light is patched to.
    pub universe: u16,
    /// Its 1-based start channel.
    pub address: u16,
    pub profile: Profile,
    pub cct: CctRange,
    /// Whether the light's channels lie past the data being received.
    pub starved: bool,
    /// What the light is to show.
    pub state: LightState,
}

/// What a dispatch changed about a light's data.
#[derive(Debug, Clone, Copy, PartialEq, Eq, Structural)]
pub enum Edge {
    /// Nothing new.
    Same,
    /// From now on the data does not reach the light's channels.
    Starved,
    /// The data covers the light's channels again.
    Recovered,
}

/// Whether received data covers a light's channels.
pub open spec fn covered(s: Sink, data: Seq<u8>) -> bool {
    1 <= s.address && s.address - 1 + s.profile.channels() <= data.len()
}

/// A light's channels in received data.
pub open spec fn channels(s: Sink, data: Seq<u8>) -> Seq<u8> {
    data.subrange(s.address - 1, s.address - 1 + s.profile.channels())
}

/// A light after its universe was dispatched: its mapped state, or, where the data
/// does not reach it, the state it had.
pub open spec fn dispatched(s: Sink, data: Seq<u8>) -> Sink {
    if covered(s, data) {
        Sink { starved: false, state: mapped(s.profile, channels(s, data), s.cct), ..s }
    } else {
        Sink { starved: true, ..s }
    }
}

/// What a dispatch changes about a light's data.
pub open spec fn edge(s: Sink, data: Seq<u8>) -> Edge {
    if covered(s, data) {
        if s.starved {
            Edge::Recovered
        } else {
            Edge::Same
        }
    } else if s.starved {
        Edge::Same
    } else {
        Edge::Starved
    }
}

impl Sink {
    /// Map this light's channels out of a merged universe. A light patched past
    /// the end of the data keeps its state; that is reported once, and once again
    /// when the data covers it.
    pub fn dispatch(&mut self, data: &[u8]) -> (r: Edge)
        ensures
            *final(self) == dispatched(*old(self), data@),
            r == edge(*old(self), data@),
    {
        let count: u16 = self.profile.channel_count();
        match extract_slice(data, self.address, count) {
            None => {
                let first = !self.starved;
                self.starved = true;
                if first {
                    Edge::Starved
                } else {
                    Edge::Same
                }
            },
            Some(slice) => {
                let was = self.starved;
                self.starved = false;
                self.state = map_dmx(self.profile, slice, self.cct);
                if was {
                    Edge::Recovered
                } else {
                    Edge::Same
                }
            },
        }
    }
}

/// What reaches one light.
#[derive(Debug, Clone, Copy)]
pub struct Update {
    /// The light, by its position in the configuration.
    pub light: usize,
    /// The state to show.
    pub state: LightState,
    /// Whether its data came or went.
    pub edge: Edge,
}

/// The update of light `i`.
pub open spec fn update_of(lights: Seq<Sink>, i: int, data: Seq<u8>) -> Update {
    Update {
        light: i as usize,
        state: dispatched(lights[i], data).state,
        edge: edge(lights[i], data),
    }
}

/// The updates of the first `n` lights for a universe, in order.
pub open spec fn updates(lights: Seq<Sink>, universe: u16, data: Seq<u8>, n: nat) -> Seq<Update>
    decreases n,
{
    if n == 0 {
        seq![]
    } else {
        let init = updates(lights, universe, data, (n - 1) as nat);
        if lights[n - 1].universe == universe {
            init.push(update_of(lights, n - 1, data))
        } else {
            init
        }
    }
}

/// The light of a configuration entry, before any DMX.
pub open spec fn sink_for(l: LightCfg) -> Sink {
    Sink {
        universe: l.universe,
        address: l.address,
        profile: Profile::named(l.profile@)->0,
        cct: CctRange { min: l.cct_min, max: l.cct_max },
        starved: false,
        state: startup_state(l.power_on_connect),
    }
}

/// All lights of a bridge.
#[derive(Debug)]
pub struct Rig {
    lights: Vec<Sink>,
}

impl View for Rig {
    type V = Seq<Sink>;

    closed spec fn view(&self) -> Seq<Sink> {
        self.lights@
    }
}

impl Rig {
    /// The lights of a configuration, which is validated first: an invalid one is
    /// refused with its problem. `ips` as in [`Config::validate`].
    pub fn new(cfg: &Config, ips: &[Option<Ip>]) -> (r: Result<Self, ConfigError>)
        ensures
            match problem(cfg, ips@, levels_of(&cfg.logging)) {
                Some(e) => r == Err::<Self, ConfigError>(e),
                None => r matches Ok(rig) && rig@ == Seq::new(
                    cfg.lights@.len(),
                    |i: int| sink_for(cfg.lights@[i]),
                ),
            },
            ascii_levels(&cfg.logging) ==> match problem(
                cfg,
                ips@,
                ascii_levels_of(&cfg.logging),
            ) {
                Some(e) => r == Err::<Self, ConfigError>(e),
                None => r matches Ok(rig) && rig@ == Seq::new(
                    cfg.lights@.len(),
                    |i: int| sink_for(cfg.lights@[i]),
                ),
            },
    {
        if let Err(e) = cfg.validate(ips) {
            return Err(e);
        }
        let mut lights: Vec<Sink> = Vec::new();
        let mut i: usize = 0;
        while i < cfg.lights.len()
            invariant
                i <= cfg.lights@.len(),
                lights@.len() == i,
                problem(cfg, ips@, levels_of(&cfg.logging)) is None,
                forall|k: int| 0 <= k < i ==> #[trigger] lights@[k] == sink_for(cfg.lights@[k]),
            decreases cfg.lights.len() - i,
        {
            let l: &LightCfg = &cfg.lights[i];
            proof {
                crate::config::validate::law_accepted_light_is_sound(
                    cfg,
                    ips@,
                    levels_of(&cfg.logging),
                    i as int,
                );
            }
            let profile: Profile = match Profile::parse(l.profile.as_str()) {
                Some(p) => p,
                None => Profile::Cct,
            };
            lights.push(
                Sink {
                    universe: l.universe,
                    address: l.address,
                    profile,
                    cct: CctRange { min: l.cct_min, max: l.cct_max },
                    starved: false,
                    state: initial_state(l.power_on_connect),
                },
            );
            i += 1;
        }
        let rig = Rig { lights };
        assert(rig@ =~= Seq::new(cfg.lights@.len(), |i: int| sink_for(cfg.lights@[i])));
        Ok(rig)
    }

    /// The universes that lights are patched to, each once.
    pub fn universes(&self) -> (r: Vec<u16>)
        ensures
            r@.no_duplicates(),
            forall|u: u16| #[trigger]
                r@.contains(u) <==> exists|i: int|
                    0 <= i < self@.len() && (#[trigger] self@[i]).universe == u,
    {
        let mut out: Vec<u16> = Vec::new();
        let mut i: usize = 0;
        while i < self.lights.len()
            invariant
                i <= self.lights@.len(),
                out@.no_duplicates(),
                forall|u: u16| #[trigger]
                    out@.contains(u) <==> exists|k: int|
                        0 <= k < i && (#[trigger] self.lights@[k]).universe == u,
            decreases self.lights.len() - i,
        {
            let u: u16 = self.lights[i].universe;
            let ghost before = out@;
            if !holds(&out, u) {
                out.push(u);
            }
            assert forall|v: u16| #[trigger]
                out@.contains(v) <==> exists|k: int|
                    0 <= k < i + 1 && (#[trigger] self.lights@[k]).universe == v by {
                if out@.contains(v) {
                    if before.contains(v) {
                        let k = choose|k: int|
                            0 <= k < i && (#[trigger] self.lights@[k]).universe == v;
                        assert(self.lights@[k].universe == v);
                    } else {
                        let q = choose|q: int| 0 <= q < out@.len() && out@[q] == v;
                        if q < before.len() {
                            assert(before[q] == v);
                        }
                        assert(self.lights@[i as int].universe == v);
                    }
                }
                if exists|k: int| 0 <= k < i + 1 && (#[trigger] self.lights@[k]).universe == v {
                    let k = choose|k: int|
                        0 <= k < i + 1 && (#[trigger] self.lights@[k]).universe == v;
                    if k < i {
                        assert(before.contains(v));
                        let q = choose|q: int| 0 <= q < before.len() && before[q] == v;
                        assert(out@[q] == v);
                    } else if before.contains(v) {
                        let q = choose|q: int| 0 <= q < before.len() && before[q] == v;
                        assert(out@[q] == v);
                    } else {
                        assert(out@[before.len() as int] == v);
                    }
                }
            }
            i += 1;
        }
        out
    }

    /// Hand a merged universe to its lights. Every light of that universe gets an
    /// update, changed or not: a failsafe may have altered its state meanwhile.
    #[verifier::rlimit(60)]
    pub fn dispatch(&mut self, universe: u16, data: &[u8]) -> (r: Vec<Update>)
        ensures
            final(self)@ == Seq::new(
                old(self)@.len(),
                |i: int|
                    if old(self)@[i].universe == universe {
                        dispatched(old(self)@[i], data@)
                    } else {
                        old(self)@[i]
                    },
            ),
            r@ == updates(old(self)@, universe, data@, old(self)@.len()),
    {
        let ghost before = self@;
        let ghost target = Seq::new(
            before.len(),
            |i: int|
                if before[i].universe == universe {
                    dispatched(before[i], data@)
                } else {
                    before[i]
                },
        );
        let mut out: Vec<Update> = Vec::new();
        let mut i: usize = 0;
        while i < self.lights.len()
            invariant
                i <= self.lights@.len(),
                before == old(self)@,
                self.lights@.len() == before.len(),
                target == Seq::new(
                    before.len(),
                    |i: int|
                        if before[i].universe == universe {
                            dispatched(before[i], data@)
                        } else {
                            before[i]
                        },
                ),
                forall|k: int| 0 <= k < i ==> #[trigger] self.lights@[k] == target[k],
                forall|k: int| i <= k < before.len() ==> #[trigger] self.lights@[k] == before[k],
                out@ == updates(before, universe, data@, i as nat),
            decreases self.lights.len() - i,
        {
            assert(self.lights@[i as int] == before[i as int]);
            let mut s: Sink = self.lights[i];
            if s.universe == universe {
                let edge = s.dispatch(data);
                self.lights.set(i, s);
                out.push(Update { light: i, state: s.state, edge });
            }
            i += 1;
        }
        assert(self@ =~= target);
        out
    }

    /// Apply a failsafe to the lights of a universe. Returns the lights that it
    /// changed, with their new states.
    pub fn fail_safe(&mut self, universe: u16, action: FailsafeAction) -> (r: Vec<(
        usize,
        LightState,
    )>)
        ensures
            final(self)@ == Seq::new(
                old(self)@.len(),
                |i: int|
                    if old(self)@[i].universe == universe {
                        Sink { state: safe(action, old(self)@[i].state), ..old(self)@[i] }
                    } else {
                        old(self)@[i]
                    },
            ),
            r@ == safe_changes(old(self)@, universe, action, old(self)@.len()),
    {
        let ghost before = self@;
        let ghost target = Seq::new(
            before.len(),
            |i: int|
                if before[i].universe == universe {
                    Sink { state: safe(action, before[i].state), ..before[i] }
                } else {
                    before[i]
                },
        );
        let mut out: Vec<(usize, LightState)> = Vec::new();
        let mut i: usize = 0;
        while i < self.lights.len()
            invariant
                i <= self.lights@.len(),
                before == old(self)@,
                self.lights@.len() == before.len(),
                target == Seq::new(
                    before.len(),
                    |i: int|
                        if before[i].universe == universe {
                            Sink { state: safe(action, before[i].state), ..before[i] }
                        } else {
                            before[i]
                        },
                ),
                forall|k: int| 0 <= k < i ==> #[trigger] self.lights@[k] == target[k],
                forall|k: int| i <= k < before.len() ==> #[trigger] self.lights@[k] == before[k],
                out@ == safe_changes(before, universe, action, i as nat),
            decreases self.lights.len() - i,
        {
            assert(self.lights@[i as int] == before[i as int]);
            let mut s: Sink = self.lights[i];
            if s.universe == universe {
                let mut st: LightState = s.state;
                let changed = action.apply(&mut st);
                s.state = st;
                self.lights.set(i, s);
                if changed {
                    out.push((i, st));
                }
            }
            i += 1;
        }
        assert(self@ =~= target);
        out
    }

    /// The state of a light.
    pub fn state(&self, light: usize) -> (r: LightState)
        requires
            light < self@.len(),
        ensures
            r == self@[light as int].state,
    {
        self.lights[light].state
    }

    /// The number of lights.
    pub fn len(&self) -> (r: usize)
        ensures
            r == self@.len(),
    {
        self.lights.len()
    }
}

fn holds(v: &Vec<u16>, u: u16) -> (r: bool)
    ensures
        r == v@.contains(u),
{
    let mut i: usize = 0;
    while i < v.len()
        invariant
            i <= v@.len(),
            forall|k: int| 0 <= k < i ==> v@[k] != u,
        decreases v.len() - i,
    {
        if v[i] == u {
            assert(v@[i as int] == u);
            return true;
        }
        i += 1;
    }
    false
}

/// What a failsafe does to a light.
#[derive(Debug, Clone, Copy, PartialEq, Eq, Structural)]
pub enum FailsafeAction {
    /// Brightness 0; the light stays powered.
    Blackout,
    /// Power off; the brightness stays.
    PowerOff,
}

/// A light's state under a failsafe.
pub open spec fn safe(action: FailsafeAction, st: LightState) -> LightState {
    match action {
        FailsafeAction::Blackout => LightState { brightness: 0, ..st },
        FailsafeAction::PowerOff => LightState { power: false, ..st },
    }
}

/// The lights among the first `n` that a failsafe changes, with their new states.
pub open spec fn safe_changes(
    lights: Seq<Sink>,
    universe: u16,
    action: FailsafeAction,
    n: nat,
) -> Seq<(usize, LightState)>
    decreases n,
{
    if n == 0 {
        seq![]
    } else {
        let init = safe_changes(lights, universe, action, (n - 1) as nat);
        let s = lights[n - 1];
        if s.universe == universe && safe(action, s.state) != s.state {
            init.push(((n - 1) as usize, safe(action, s.state)))
        } else {
            init
        }
    }
}

impl FailsafeAction {
    /// Apply the failsafe; whether it changed anything.
    pub fn apply(&self, st: &mut LightState) -> (changed: bool)
        ensures
            *final(st) == safe(*self, *old(st)),
            changed == (*final(st) != *old(st)),
    {
        match self {
            FailsafeAction::Blackout => {
                let changed = st.brightness != 0;
                st.brightness = 0;
                changed
            },
            FailsafeAction::PowerOff => {
                let changed = st.power;
                st.power = false;
                changed
            },
        }
    }
}

/// What a failsafe mode does to a light; `None` for `hold`.
pub fn failsafe_action(mode: FailsafeMode) -> (r: Option<FailsafeAction>)
    ensures
        r == (match mode {
            FailsafeMode::Hold => None,
            FailsafeMode::Blackout => Some(FailsafeAction::Blackout),
            FailsafeMode::PowerOff => Some(FailsafeAction::PowerOff),
        }),
{
    match mode {
        FailsafeMode::Hold => None,
        FailsafeMode::Blackout => Some(FailsafeAction::Blackout),
        FailsafeMode::PowerOff => Some(FailsafeAction::PowerOff),
    }
}

/// When ArtDmx was last seen for each configured universe, in milliseconds since
/// the bridge started.
#[derive(Debug)]
pub struct Clocks {
    seen: HashMap<u16, u64>,
}

impl View for Clocks {
    type V = Map<u16, u64>;

    closed spec fn view(&self) -> Map<u16, u64> {
        self.seen@
    }
}

impl Clocks {
    /// Clocks for the given universes, all at the start of the bridge: a source
    /// that is down from the beginning counts as lost from the beginning.
    pub fn new(universes: &[u16]) -> (c: Self)
        ensures
            forall|u: u16| #[trigger] c@.contains_key(u) <==> universes@.contains(u),
            forall|u: u16| #[trigger] c@.contains_key(u) ==> c@[u] == 0,
    {
        let mut seen: HashMap<u16, u64> = HashMap::new();
        let mut i: usize = 0;
        while i < universes.len()
            invariant
                i <= universes@.len(),
                forall|u: u16| #[trigger]
                    seen@.contains_key(u) <==> exists|k: int|
                        0 <= k < i && #[trigger] universes@[k] == u,
                forall|u: u16| #[trigger] seen@.contains_key(u) ==> seen@[u] == 0,
            decreases universes.len() - i,
        {
            let ghost before = seen@;
            seen.insert(universes[i], 0);
            assert forall|u: u16| #[trigger]
                seen@.contains_key(u) <==> exists|k: int|
                    0 <= k < i + 1 && #[trigger] universes@[k] == u by {
                if seen@.contains_key(u) {
                    if before.contains_key(u) {
                        let k = choose|k: int| 0 <= k < i && #[trigger] universes@[k] == u;
                        assert(universes@[k] == u);
                    } else {
                        assert(universes@[i as int] == u);
                    }
                }
                if exists|k: int| 0 <= k < i + 1 && #[trigger] universes@[k] == u {
                    let k = choose|k: int| 0 <= k < i + 1 && #[trigger] universes@[k] == u;
                    if k < i {
                        assert(before.contains_key(u));
                    }
                }
            }
            i += 1;
        }
        Clocks { seen }
    }

    /// When ArtDmx was last seen for a universe; the start of the bridge where
    /// there is no clock.
    pub fn last_seen(&self, universe: u16) -> (r: u64)
        ensures
            r == (if self@.contains_key(universe) {
                self@[universe]
            } else {
                0
            }),
    {
        match self.seen.get(&universe) {
            Some(t) => *t,
            None => 0,
        }
    }

    /// The number of clocks.
    pub fn len(&self) -> (r: usize)
        ensures
            r == self@.dom().len(),
    {
        self.seen.len()
    }
}

/// The clocks after ArtDmx for a universe: traffic for a universe that no light is
/// patched to does not count.
pub open spec fn clocked(m: Map<u16, u64>, port_address: u16, elapsed_ms: u64) -> Map<u16, u64> {
    if m.contains_key(port_address) {
        m.insert(port_address, elapsed_ms)
    } else {
        m
    }
}

/// Record the arrival of ArtDmx for a universe.
pub fn note_artnet(clocks: &mut Clocks, port_address: u16, elapsed_ms: u64)
    ensures
        final(clocks)@ == clocked(old(clocks)@, port_address, elapsed_ms),
{
    if clocks.seen.contains_key(&port_address) {
        clocks.seen.insert(port_address, elapsed_ms);
    }
}

/// Whether a configuration arms the failsafe.
#[derive(Debug)]
pub enum Arming {
    /// The lights hold, or there are none.
    Idle,
    /// A mode that acts, but no time after which it would.
    NoTimeout(FailsafeMode),
    /// The failsafe is to be watched.
    Armed(FailsafeTimer),
}

/// The failsafe timer of all universes.
#[derive(Debug)]
pub struct FailsafeTimer {
    action: FailsafeAction,
    timeout_ms: u64,
    universes: Vec<u16>,
    announced: Vec<bool>,
}

/// A universe without ArtNet.
#[derive(Debug, Clone, Copy, PartialEq, Eq, Structural)]
pub struct Loss {
    pub universe: u16,
    /// For how long, in whole seconds.
    pub idle_secs: u64,
    /// Whether this is the first tick of the loss.
    pub first: bool,
}

/// How long a universe has been idle.
pub open spec fn idle_ms(clocks: Map<u16, u64>, universe: u16, now_ms: u64) -> int {
    let seen = if clocks.contains_key(universe) {
        clocks[universe]
    } else {
        0
    };
    if now_ms >= seen {
        now_ms - seen
    } else {
        0
    }
}

/// The losses among the first `n` universes.
pub open spec fn losses(
    universes: Seq<u16>,
    announced: Seq<bool>,
    timeout_ms: u64,
    clocks: Map<u16, u64>,
    now_ms: u64,
    n: nat,
) -> Seq<Loss>
    decreases n,
{
    if n == 0 {
        seq![]
    } else {
        let init = losses(universes, announced, timeout_ms, clocks, now_ms, (n - 1) as nat);
        let idle = idle_ms(clocks, universes[n - 1], now_ms);
        if idle < timeout_ms {
            init
        } else {
            init.push(
                Loss {
                    universe: universes[n - 1],
                    idle_secs: (idle / 1000) as u64,
                    first: !announced[n - 1],
                },
            )
        }
    }
}

impl FailsafeTimer {
    /// What happens to a light.
    pub closed spec fn action_of(&self) -> FailsafeAction {
        self.action
    }

    /// After how long.
    pub closed spec fn timeout_of(&self) -> u64 {
        self.timeout_ms
    }

    /// The universes watched.
    pub closed spec fn watched(&self) -> Seq<u16> {
        self.universes@
    }

    /// Which of them are known to be lost.
    pub closed spec fn known_lost(&self) -> Seq<bool> {
        self.announced@
    }

    /// One flag per universe.
    pub open spec fn wf(&self) -> bool {
        self.watched().len() == self.known_lost().len()
    }

    /// What happens to a light.
    pub fn action(&self) -> (r: FailsafeAction)
        ensures
            r == self.action_of(),
    {
        self.action
    }

    /// Look at the clocks. Returns every universe that has been idle for the
    /// timeout or longer; each one is timed on its own.
    pub fn tick(&mut self, clocks: &Clocks, now_ms: u64) -> (r: Vec<Loss>)
        requires
            old(self).wf(),
        ensures
            final(self).wf(),
            final(self).action_of() == old(self).action_of(),
            final(self).timeout_of() == old(self).timeout_of(),
            final(self).watched() == old(self).watched(),
            final(self).known_lost() == Seq::new(
                old(self).known_lost().len(),
                |i: int| idle_ms(clocks@, old(self).watched()[i], now_ms) >= old(self).timeout_of(),
            ),
            r@ == losses(
                old(self).watched(),
                old(self).known_lost(),
                old(self).timeout_of(),
                clocks@,
                now_ms,
                old(self).watched().len(),
            ),
    {
        let ghost lost = Seq::new(
            self.announced@.len(),
            |i: int| idle_ms(clocks@, self.universes@[i], now_ms) >= self.timeout_ms,
        );
        let mut out: Vec<Loss> = Vec::new();
        let mut i: usize = 0;
        while i < self.universes.len()
            invariant
                i <= self.universes@.len(),
                self.wf(),
                self.universes == old(self).universes,
                self.timeout_ms == old(self).timeout_ms,
                self.action == old(self).action,
                self.announced@.len() == old(self).announced@.len(),
                lost == Seq::new(
                    old(self).announced@.len(),
                    |i: int| idle_ms(clocks@, old(self).universes@[i], now_ms) >= old(self).timeout_ms,
                ),
                forall|k: int| 0 <= k < i ==> #[trigger] self.announced@[k] == lost[k],
                forall|k: int|
                    i <= k < self.announced@.len() ==> #[trigger] self.announced@[k] == old(
                        self,
                    ).announced@[k],
                out@ == losses(
                    old(self).universes@,
                    old(self).announced@,
                    old(self).timeout_ms,
                    clocks@,
                    now_ms,
                    i as nat,
                ),
            decreases self.universes.len() - i,
        {
            let universe: u16 = self.universes[i];
            let seen: u64 = clocks.last_seen(universe);
            let idle: u64 = now_ms.saturating_sub(seen);
            if idle < self.timeout_ms {
                self.announced.set(i, false);
            } else {
                let first = !self.announced[i];
                self.announced.set(i, true);
                out.push(Loss { universe, idle_secs: idle / 1000, first });
            }
            i += 1;
        }
        assert(self.announced@ =~= lost);
        out
    }
}

/// Arm the failsafe, unless the mode is `hold` (or unknown), no timeout is set or
/// there is no universe to watch.
pub fn arm_failsafe(mode: &str, timeout_secs: u64, universes: Vec<u16>) -> (r: Arming)
    ensures
        ({
            let m = match FailsafeMode::named(mode@) {
                Some(m) => m,
                None => FailsafeMode::Hold,
            };
            &&& m == FailsafeMode::Hold ==> r is Idle
            &&& m != FailsafeMode::Hold && timeout_secs == 0 ==> r == Arming::NoTimeout(m)
            &&& m != FailsafeMode::Hold && timeout_secs != 0 && universes@.len() == 0 ==> r is Idle
            &&& m != FailsafeMode::Hold && timeout_secs != 0 && universes@.len() > 0 ==> {
                &&& r is Armed
                &&& r->Armed_0.wf()
                &&& r->Armed_0.watched() == universes@
                &&& r->Armed_0.action_of() == (if m == FailsafeMode::Blackout {
                    FailsafeAction::Blackout
                } else {
                    FailsafeAction::PowerOff
                })
                &&& r->Armed_0.timeout_of() == (if timeout_secs * 1000 > u64::MAX {
                    u64::MAX as int
                } else {
                    timeout_secs * 1000
                })
                &&& forall|i: int|
                    0 <= i < universes@.len() ==> !#[trigger] r->Armed_0.known_lost()[i]
            }
        }),
{
    let mode: FailsafeMode = match FailsafeMode::parse(mode) {
        Some(m) => m,
        None => FailsafeMode::Hold,
    };
    let timeout_ms: u64 = match timeout_secs.checked_mul(1000) {
        Some(t) => t,
        None => u64::MAX,
    };
    let action: FailsafeAction = match failsafe_action(mode) {
        Some(a) => a,
        None => return Arming::Idle,
    };
    if timeout_ms == 0 {
        return Arming::NoTimeout(mode);
    }
    if universes.len() == 0 {
        return Arming::Idle;
    }
    let mut announced: Vec<bool> = Vec::new();
    let mut i: usize = 0;
    while i < universes.len()
        invariant
            i <= universes@.len(),
            announced@.len() == i,
            forall|k: int| 0 <= k < i ==> !#[trigger] announced@[k],
        decreases universes.len() - i,
    {
        announced.push(false);
        i += 1;
    }
    Arming::Armed(FailsafeTimer { action, timeout_ms, universes, announced })
}

/// A failsafe that is applied already changes nothing more, and it touches only
/// what it is about: blackout keeps the power, power-off the brightness.
pub proof fn law_failsafe_is_idempotent(action: FailsafeAction, st: LightState)
    ensures
        safe(action, safe(action, st)) == safe(action, st),
        safe(FailsafeAction::Blackout, st).power == st.power,
        safe(FailsafeAction::Blackout, st).brightness == 0,
        safe(FailsafeAction::PowerOff, st).brightness == st.brightness,
        !safe(FailsafeAction::PowerOff, st).power,
{
}

/// ArtNet that resumes overrides a failsafe: what a covered light shows after a
/// dispatch does not depend on what it showed before, and it is on.
pub proof fn law_resumed_artnet_overrides_the_failsafe(s: Sink, action: FailsafeAction, data: Seq<u8>)
    requires
        covered(s, data),
    ensures
        dispatched(Sink { state: safe(action, s.state), ..s }, data) == dispatched(s, data),
        dispatched(s, data).state.power,
        !dispatched(s, data).state.seed,
{
}

/// A light that the data does not reach keeps its state, and that is reported
/// once: the next short packet reports nothing.
pub proof fn law_starved_light_holds(s: Sink, short: Seq<u8>, again: Seq<u8>)
    requires
        !covered(s, short),
        !covered(s, again),
    ensures
        dispatched(s, short).state == s.state,
        edge(dispatched(s, short), again) == Edge::Same,
{
}

/// Each universe is timed on its own: ArtDmx for one universe leaves the idle time
/// of every other as it was, and foreign ArtDmx leaves all of them.
pub proof fn law_universes_are_timed_apart(
    m: Map<u16, u64>,
    heard: u16,
    at_ms: u64,
    other: u16,
    now_ms: u64,
)
    requires
        other != heard || !m.contains_key(heard),
    ensures
        idle_ms(clocked(m, heard, at_ms), other, now_ms) == idle_ms(m, other, now_ms),
{
}

} // verus!
