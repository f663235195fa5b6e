//! What a light's Bluetooth session decides: which frames a new state needs, when
//! a link counts as dead, how long to wait before the next attempt, and what of a
//! light's status is news. The application connects, writes and reads.

use vstd::prelude::*;
use vstd::string::*;
use crate::driver::Driver;
use crate::protocol::pixel::Block;
use crate::protocol::replies::{parse, reply_of, Reply};
use crate::protocol::{frames_of, queries, LightState};

verus! {

/// How long a liveness probe may take, seconds.
pub const PROBE_TIMEOUT_SECS: u64 = 12;

/// Consecutive probe failures before the link counts as dead.
pub const MAX_PROBE_FAILURES: u32 = 3;

/// How often to look for a light that has not been found, seconds.
pub const FIND_POLL_SECS: u64 = 2;

/// Base backoff after a session, milliseconds.
pub const RECONNECT_BACKOFF_MS: u64 = 4000;

/// Gap between status queries, milliseconds.
pub const QUERY_SPACING_MS: u64 = 60;

/// Gap between the frames of one state, milliseconds.
pub const PIXEL_FRAME_SPACING_MS: u64 = 80;

/// The text of a name that is there and not empty, else another text.
pub open spec fn name_or(name: Option<String>, other: Seq<char>) -> Seq<char> {
    match name {
        Some(n) => if n@.len() > 0 {
            n@
        } else {
            other
        },
        None => other,
    }
}

/// The log label of a light: its name, or its MAC where it has none.
pub fn label(name: &Option<String>, mac: &str) -> (r: String)
    ensures
        r@ == name_or(*name, mac@),
{
    if let Some(n) = name {
        if !n.as_str().is_empty() {
            return n.clone();
        }
    }
    mac.to_owned()
}

/// The name by which the driver is resolved: the advertised one, or, where it is
/// not known yet, the configured one.
pub fn resolve_name(advertised: &str, configured: &Option<String>) -> (r: String)
    ensures
        r@ == (if advertised@.len() > 0 {
            advertised@
        } else {
            match *configured {
                Some(n) => n@,
                None => Seq::<char>::empty(),
            }
        }),
{
    if !advertised.is_empty() {
        return advertised.to_owned();
    }
    match configured {
        Some(n) => n.clone(),
        None => String::new(),
    }
}

/// The extra wait, below three seconds, that spreads the reconnects of several
/// lights: by the last MAC byte and the number of the attempt.
pub open spec fn jitter_ms(last_mac_byte: u8, attempt: u64) -> int {
    (last_mac_byte * 97 + attempt * 211) % 0x1_0000_0000_0000_0000 % 3000
}

/// How long to wait before reconnect number `attempt`, milliseconds.
pub fn backoff_ms(mac: [u8; 6], attempt: u64) -> (r: u64)
    ensures
        r == 4000 + jitter_ms(mac@[5], attempt),
        4000 <= r < 7000,
{
    let base: u64 = mac[5] as u64 * 97;
    let step: u64 = attempt.wrapping_mul(211);
    let sum: u64 = base.wrapping_add(step);
    proof {
        let m: int = 0x1_0000_0000_0000_0000;
        let whole: int = attempt * 211;
        assert(step == whole % m);
        assert(sum == (base + step) % m);
        vstd::arithmetic::div_mod::lemma_add_mod_noop_right(base as int, whole, m);
        assert((base + whole % m) % m == (base + whole) % m);
    }
    RECONNECT_BACKOFF_MS + sum % 3000
}

/// Milliseconds between two flushes at a rate: at least one.
pub fn flush_ms(flush_hz: u32) -> (r: u64)
    ensures
        flush_hz == 0 ==> r == 1000,
        1 <= flush_hz <= 1000 ==> r == 1000u32 / flush_hz,
        flush_hz > 1000 ==> r == 1,
        1 <= r <= 1000,
{
    let hz: u32 = if flush_hz == 0 {
        1
    } else {
        flush_hz
    };
    if hz > 1000 {
        return 1;
    }
    let ms: u32 = 1000 / hz;
    assert(1 <= 1000int / (hz as int) <= 1000) by (nonlinear_arith)
        requires
            1 <= hz <= 1000,
    ;
    ms as u64
}

/// The power frame, if any, that a state asks for: on where the light was not
/// known to be on; off where an active state demands it and it was not sent yet.
/// A seed (the state before any DMX) never switches a light off.
pub open spec fn power_for(prev_power: Option<bool>, power: bool, seed: bool) -> Option<bool> {
    if power {
        if prev_power == Some(true) {
            None
        } else {
            Some(true)
        }
    } else if seed || prev_power == Some(false) {
        None
    } else {
        Some(false)
    }
}

/// The power frame, if any, that the flush loop should send. `prev_power` is the
/// power of the last state flushed in this session, `None` before the first.
pub fn power_command(prev_power: Option<bool>, desired: &LightState) -> (r: Option<bool>)
    ensures
        r == power_for(prev_power, desired.power, desired.seed),
{
    let was_on = match prev_power {
        Some(p) => p,
        None => false,
    };
    let was_off = match prev_power {
        Some(p) => !p,
        None => false,
    };
    if desired.power {
        if was_on {
            None
        } else {
            Some(true)
        }
    } else if desired.seed || was_off {
        None
    } else {
        Some(false)
    }
}

fn same_segments(a: &[Block; 8], b: &[Block; 8]) -> (r: bool)
    ensures
        r == (*a == *b),
{
    let r = a[0] == b[0] && a[1] == b[1] && a[2] == b[2] && a[3] == b[3] && a[4] == b[4] && a[5]
        == b[5] && a[6] == b[6] && a[7] == b[7];
    proof {
        if r {
            assert(*a =~= *b);
        }
    }
    r
}

/// Whether two states are the same in every field.
pub fn same_state(a: &LightState, b: &LightState) -> (r: bool)
    ensures
        r == (*a == *b),
{
    a.power == b.power && a.mode == b.mode && a.brightness == b.brightness && a.cct == b.cct
        && a.gm == b.gm && a.hue == b.hue && a.sat == b.sat && a.x == b.x && a.y == b.y && a.r
        == b.r && a.g == b.g && a.b == b.b && a.cw == b.cw && a.ww == b.ww && a.fx_id == b.fx_id
        && a.fx_speed == b.fx_speed && a.fx_extra == b.fx_extra && a.fx_val2 == b.fx_val2
        && same_segments(&a.segments, &b.segments) && a.seg_count == b.seg_count && a.pixel_speed
        == b.pixel_speed && a.pixel_effect == b.pixel_effect && a.pixel_dir == b.pixel_dir && a.seed
        == b.seed
}

/// What a flush sends: a power frame first, then the frames of the state.
#[derive(Debug)]
pub struct Flush {
    /// The power change, where there is one.
    pub power: Option<bool>,
    /// Its frame.
    pub power_frame: Option<Vec<u8>>,
    /// The frames of the state, in send order; none while the light is off.
    pub frames: Vec<Vec<u8>>,
}

/// The outcome of a liveness probe.
#[derive(Debug, Clone, Copy, PartialEq, Eq, Structural)]
pub enum Probe {
    /// The link answers; `restored` where it had missed a probe before.
    Alive { restored: bool },
    /// The probe failed, for the given time in a row.
    Missed { failures: u32 },
    /// Too many failures in a row: recycle the link.
    Dead { failures: u32 },
    /// The system reports the light as disconnected.
    Disconnected,
}

/// One connected session with a light.
#[derive(Debug)]
pub struct Session {
    last_sent: Option<LightState>,
    failures: u32,
}

impl Session {
    /// The state flushed last.
    pub closed spec fn sent(&self) -> Option<LightState> {
        self.last_sent
    }

    /// Probe failures in a row.
    pub closed spec fn misses(&self) -> u32 {
        self.failures
    }

    /// A session ends at the third failure, so fewer are remembered.
    pub open spec fn wf(&self) -> bool {
        self.misses() < 3
    }

    /// A fresh session. A light that reconnects may have been power-cycled, so
    /// nothing is taken to be known of it.
    pub fn new() -> (s: Self)
        ensures
            s.wf(),
            s.sent() is None,
            s.misses() == 0,
    {
        Session { last_sent: None, failures: 0 }
    }

    /// What to send for a desired state: nothing where it was flushed already.
    pub fn flush(&mut self, driver: &Driver, desired: &LightState) -> (r: Option<Flush>)
        ensures
            final(self).sent() == Some(*desired),
            final(self).misses() == old(self).misses(),
            r is None <==> old(self).sent() == Some(*desired),
            r matches Some(f) ==> {
                let prev = match old(self).sent() {
                    Some(l) => Some(l.power),
                    None => None,
                };
                &&& f.power == power_for(prev, desired.power, desired.seed)
                &&& f.power is Some <==> f.power_frame is Some
                &&& f.power_frame matches Some(b) ==> b@ == driver.power_frame(f.power->0)
                &&& frames_of(f.frames@) == (if desired.power {
                    driver.frames(*desired)
                } else {
                    Seq::<Seq<u8>>::empty()
                })
            },
    {
        let known = match &self.last_sent {
            Some(l) => same_state(l, desired),
            None => false,
        };
        if known {
            return None;
        }
        let prev: Option<bool> = match &self.last_sent {
            Some(l) => Some(l.power),
            None => None,
        };
        let power = power_command(prev, desired);
        let power_frame: Option<Vec<u8>> = match power {
            Some(on) => Some(driver.power(on)),
            None => None,
        };
        let frames: Vec<Vec<u8>> = if desired.power {
            driver.apply_frames(desired)
        } else {
            let none: Vec<Vec<u8>> = Vec::new();
            assert(frames_of(none@) =~= Seq::<Seq<u8>>::empty());
            none
        };
        self.last_sent = Some(*desired);
        Some(Flush { power, power_frame, frames })
    }

    /// Take in a probe: whether the system reports the light as connected, and
    /// whether the read was answered (`None` where there is nothing to read).
    pub fn probe(&mut self, connected: bool, read_ok: Option<bool>) -> (r: Probe)
        requires
            old(self).wf(),
        ensures
            final(self).sent() == old(self).sent(),
            !connected ==> r == Probe::Disconnected && final(self).misses() == old(self).misses(),
            connected && read_ok != Some(false) ==> {
                &&& r == (Probe::Alive { restored: old(self).misses() > 0 })
                &&& final(self).misses() == 0
            },
            connected && read_ok == Some(false) ==> {
                let n = (old(self).misses() + 1) as u32;
                &&& final(self).misses() == n
                &&& r == (if n >= 3 {
                    Probe::Dead { failures: n }
                } else {
                    Probe::Missed { failures: n }
                })
            },
            !(r is Dead) ==> final(self).wf(),
    {
        if !connected {
            return Probe::Disconnected;
        }
        let ok = match read_ok {
            Some(ok) => ok,
            None => true,
        };
        if ok {
            let restored = self.failures > 0;
            self.failures = 0;
            Probe::Alive { restored }
        } else {
            self.failures = self.failures + 1;
            if self.failures >= MAX_PROBE_FAILURES {
                Probe::Dead { failures: self.failures }
            } else {
                Probe::Missed { failures: self.failures }
            }
        }
    }
}

/// The status values seen last.
#[derive(Debug, Clone, Copy, PartialEq, Eq)]
pub struct StatusCache {
    pub battery: Option<u8>,
    pub temp_c: Option<i16>,
    pub version: Option<(u8, u8, u8)>,
    pub external: bool,
}

impl Default for StatusCache {
    fn default() -> (r: Self)
        ensures
            r == (StatusCache { battery: None, temp_c: None, version: None, external: false }),
    {
        StatusCache { battery: None, temp_c: None, version: None, external: false }
    }
}

/// The cache after a reply.
pub open spec fn cached(c: StatusCache, reply: Reply) -> StatusCache {
    match reply {
        Reply::Battery { percent } => StatusCache { battery: Some(percent), ..c },
        Reply::Temperature { celsius } => StatusCache { temp_c: Some(celsius), ..c },
        Reply::Version { major, minor, patch, .. } => StatusCache {
            version: Some((major, minor, patch)),
            ..c
        },
        Reply::ExternalPower { .. } => StatusCache { external: true, ..c },
        Reply::Power { .. } => c,
        Reply::State { .. } => c,
    }
}

/// Whether a reply is news: power and state always are, anything else where the
/// cache changes.
pub open spec fn is_news(c: StatusCache, reply: Reply) -> bool {
    reply is Power || reply is State || cached(c, reply) != c
}

impl StatusCache {
    /// Remember a reply and report whether it is news.
    pub fn note(&mut self, reply: Reply) -> (changed: bool)
        ensures
            *final(self) == cached(*old(self), reply),
            changed == is_news(*old(self), reply),
    {
        match reply {
            Reply::Battery { percent } => {
                let c = match self.battery {
                    Some(b) => b != percent,
                    None => true,
                };
                self.battery = Some(percent);
                c
            },
            Reply::Temperature { celsius } => {
                let c = match self.temp_c {
                    Some(t) => t != celsius,
                    None => true,
                };
                self.temp_c = Some(celsius);
                c
            },
            Reply::Version { major, minor, patch, .. } => {
                let c = match self.version {
                    Some((a, b, p)) => a != major || b != minor || p != patch,
                    None => true,
                };
                self.version = Some((major, minor, patch));
                c
            },
            Reply::ExternalPower { .. } => {
                let c = !self.external;
                self.external = true;
                c
            },
            Reply::Power { .. } => true,
            Reply::State { .. } => true,
        }
    }

    /// Decode a notification. `None` where it is no known reply; else the reply
    /// and whether it is news.
    pub fn decode(&mut self, data: &[u8]) -> (r: Option<(Reply, bool)>)
        ensures
            match reply_of(data@) {
                Some(reply) => r == Some((reply, is_news(*old(self), reply))) && *final(self)
                    == cached(*old(self), reply),
                None => r is None && *final(self) == *old(self),
            },
    {
        match parse(data) {
            Some(reply) => {
                let changed = self.note(reply);
                Some((reply, changed))
            },
            None => None,
        }
    }
}

/// The status queries of a session: battery and temperature; at its start also
/// version and state.
pub fn status_queries(mac: [u8; 6], full: bool) -> (r: Vec<Vec<u8>>)
    ensures
        frames_of(r@) == (if full {
            seq![
                queries::query_frame(0x95, mac@, seq![]),
                queries::query_frame(0xB3, mac@, seq![]),
                queries::query_frame(0x9E, mac@, seq![]),
                queries::query_frame(0x8E, mac@, seq![0x85u8]),
            ]
        } else {
            seq![
                queries::query_frame(0x95, mac@, seq![]),
                queries::query_frame(0xB3, mac@, seq![]),
            ]
        }),
{
    let mut frames: Vec<Vec<u8>> = vec![queries::battery(mac), queries::temperature(mac)];
    if full {
        frames.push(queries::version(mac));
        frames.push(queries::state(mac));
    }
    assert(frames_of(frames@) =~= (if full {
        seq![
            queries::query_frame(0x95, mac@, seq![]),
            queries::query_frame(0xB3, mac@, seq![]),
            queries::query_frame(0x9E, mac@, seq![]),
            queries::query_frame(0x8E, mac@, seq![0x85u8]),
        ]
    } else {
        seq![
            queries::query_frame(0x95, mac@, seq![]),
            queries::query_frame(0xB3, mac@, seq![]),
        ]
    }));
    frames
}

/// A light that is on gets no second power-on, a light that was switched off no
/// second power-off; a seed never switches off, and an active off is sent even as
/// the first thing in a session.
pub proof fn law_power_frames(prev: Option<bool>, power: bool, seed: bool)
    ensures
        power_for(Some(power), power, seed) is None,
        !power && seed ==> power_for(prev, power, seed) is None,
        power_for(None, power, false) == Some(power),
        power_for(prev, power, seed) matches Some(on) ==> on == power,
{
}

/// The same reply twice is news only once, power and state aside.
pub proof fn law_repeated_status_is_no_news(c: StatusCache, reply: Reply)
    requires
        !(reply is Power),
        !(reply is State),
    ensures
        !is_news(cached(c, reply), reply),
{
}

/// A power frame is sent exactly when the power is not the one sent last; only a seed
/// that is off sends none. What is sent is the power asked for.
pub proof fn law_power_is_sent_when_it_changes(prev: Option<bool>, power: bool, seed: bool)
    ensures
        power_for(prev, power, seed) is Some <==> prev != Some(power) && (power || !seed),
        power_for(prev, power, seed) matches Some(on) ==> on == power,
{
}

/// A name counts where it is there and not empty.
pub proof fn law_names_count_unless_empty(name: Option<String>, other: Seq<char>)
    ensures
        name is Some && name->0@.len() > 0 ==> name_or(name, other) == name->0@,
        name is Some && name->0@.len() == 0 ==> name_or(name, other) == other,
        name is None ==> name_or(name, other) == other,
{
}

/// The wait before a reconnect grows by 211 ms an attempt and by 97 ms a MAC, round
/// 3 seconds: two lights, and two attempts in a row, do not wait the same time.
pub proof fn law_reconnects_are_spread(mac_byte: u8, attempt: u64)
    requires
        attempt <= 1_000_000_000_000,
    ensures
        0 <= jitter_ms(mac_byte, attempt) < 3000,
        jitter_ms(0, 0) == 0,
        ({
            let next = jitter_ms(mac_byte, (attempt + 1) as u64) - jitter_ms(mac_byte, attempt);
            next == 211 || next == 211 - 3000
        }),
        mac_byte < 255 ==> {
            let next = jitter_ms((mac_byte + 1) as u8, attempt) - jitter_ms(mac_byte, attempt);
            next == 97 || next == 97 - 3000
        },
{
}

/// Each status reply fills its own place of the cache and leaves the others; power and
/// mode are not kept.
pub proof fn law_status_replies_fill_their_place(
    c: StatusCache,
    percent: u8,
    celsius: i16,
    major: u8,
    minor: u8,
    patch: u8,
    by_mac: bool,
    raw: u8,
    on: bool,
    mode: u8,
)
    ensures
        cached(c, Reply::Battery { percent }) == (StatusCache {
            battery: Some(percent),
            temp_c: c.temp_c,
            version: c.version,
            external: c.external,
        }),
        cached(c, Reply::Temperature { celsius }) == (StatusCache {
            battery: c.battery,
            temp_c: Some(celsius),
            version: c.version,
            external: c.external,
        }),
        cached(c, Reply::Version { major, minor, patch, by_mac }) == (StatusCache {
            battery: c.battery,
            temp_c: c.temp_c,
            version: Some((major, minor, patch)),
            external: c.external,
        }),
        cached(c, Reply::ExternalPower { raw }) == (StatusCache {
            battery: c.battery,
            temp_c: c.temp_c,
            version: c.version,
            external: true,
        }),
        cached(c, Reply::Power { on }) == c,
        cached(c, Reply::State { mode, on }) == c,
{
}

/// A status reply is news exactly when it says something else than the last of its kind;
/// power and mode are always news.
pub proof fn law_news_is_what_changed(
    c: StatusCache,
    percent: u8,
    celsius: i16,
    major: u8,
    minor: u8,
    patch: u8,
    by_mac: bool,
    raw: u8,
    on: bool,
    mode: u8,
)
    ensures
        is_news(c, Reply::Battery { percent }) <==> c.battery != Some(percent),
        is_news(c, Reply::Temperature { celsius }) <==> c.temp_c != Some(celsius),
        is_news(c, Reply::Version { major, minor, patch, by_mac }) <==> c.version != Some(
            (major, minor, patch),
        ),
        is_news(c, Reply::ExternalPower { raw }) <==> !c.external,
        is_news(c, Reply::Power { on }),
        is_news(c, Reply::State { mode, on }),
{
}

} // verus!
