//! DMX profiles and the mapper from DMX channels to a `LightState`.
//!
//! A profile is a fixed channel layout. Channels are 8-bit, the master dimmer
//! sets brightness only (it never cuts power, so a mapped state is always on),
//! and multi-mode lights carry a live mode channel.

use vstd::prelude::*;
use vstd::string::*;
use crate::protocol::pixel::Block;
use crate::protocol::{default_state, min_of, LightState, Mode};
use crate::text::same_text;

pub mod laws;
pub mod mode_band;

verus! {

/// Number of independently addressable segments in the `pixel` profile.
pub const PIXEL_SEGMENTS: usize = 8;

/// A DMX personality / channel layout.
#[derive(Debug, Clone, Copy, PartialEq, Eq, Structural)]
pub enum Profile {
    /// 2ch: Dimmer, CCT.
    Cct,
    /// 3ch: Dimmer, CCT, GM.
    CctGm,
    /// 3ch: Dimmer, Hue, Sat.
    Hsi,
    /// 3ch: Red, Green, Blue, converted to HSI, so that it works on every colour
    /// light.
    Rgb,
    /// 5ch: Red, Green, Blue, Cool-White, Warm-White, passed straight through to
    /// the light's RGBCW mode.
    Rgbcw,
    /// 5ch: Dimmer, Mode, CCT/Hue, GM/Sat, (reserved). Mode below 128 is CCT.
    Full,
    /// 10ch: Mode-select, Dimmer, then eight mode-specific channels.
    Advanced,
    /// 20ch: Dimmer, Effect-select, Speed, Direction, then 8 pairs of Hue, Sat.
    Pixel,
}

impl Profile {
    /// The config string of this profile.
    pub open spec fn name(&self) -> Seq<char> {
        match *self {
            Profile::Cct => "cct"@,
            Profile::CctGm => "cct_gm"@,
            Profile::Hsi => "hsi"@,
            Profile::Rgb => "rgb"@,
            Profile::Rgbcw => "rgbcw"@,
            Profile::Full => "full"@,
            Profile::Advanced => "advanced"@,
            Profile::Pixel => "pixel"@,
        }
    }

    /// The profile with the given config string; `None` where no profile has it.
    pub open spec fn named(s: Seq<char>) -> Option<Profile> {
        if s == "cct"@ {
            Some(Profile::Cct)
        } else if s == "cct_gm"@ {
            Some(Profile::CctGm)
        } else if s == "hsi"@ {
            Some(Profile::Hsi)
        } else if s == "rgb"@ {
            Some(Profile::Rgb)
        } else if s == "rgbcw"@ {
            Some(Profile::Rgbcw)
        } else if s == "full"@ {
            Some(Profile::Full)
        } else if s == "advanced"@ {
            Some(Profile::Advanced)
        } else if s == "pixel"@ {
            Some(Profile::Pixel)
        } else {
            None
        }
    }

    /// The profile with the given config string; `None` where no profile has it.
    pub fn parse(s: &str) -> (r: Option<Profile>)
        ensures
            r == Profile::named(s@),
    {
        if same_text(s, "cct") {
            Some(Profile::Cct)
        } else if same_text(s, "cct_gm") {
            Some(Profile::CctGm)
        } else if same_text(s, "hsi") {
            Some(Profile::Hsi)
        } else if same_text(s, "rgb") {
            Some(Profile::Rgb)
        } else if same_text(s, "rgbcw") {
            Some(Profile::Rgbcw)
        } else if same_text(s, "full") {
            Some(Profile::Full)
        } else if same_text(s, "advanced") {
            Some(Profile::Advanced)
        } else if same_text(s, "pixel") {
            Some(Profile::Pixel)
        } else {
            None
        }
    }

    /// The canonical config string for this profile (inverse of `parse`).
    pub fn as_str(&self) -> (r: &'static str)
        ensures
            r@ == self.name(),
    {
        match self {
            Profile::Cct => "cct",
            Profile::CctGm => "cct_gm",
            Profile::Hsi => "hsi",
            Profile::Rgb => "rgb",
            Profile::Rgbcw => "rgbcw",
            Profile::Full => "full",
            Profile::Advanced => "advanced",
            Profile::Pixel => "pixel",
        }
    }

    /// Number of DMX channels this profile occupies.
    pub open spec fn channels(&self) -> int {
        match *self {
            Profile::Cct => 2,
            Profile::CctGm => 3,
            Profile::Hsi => 3,
            Profile::Rgb => 3,
            Profile::Rgbcw => 5,
            Profile::Full => 5,
            Profile::Advanced => 10,
            Profile::Pixel => 20,
        }
    }

    /// Number of DMX channels this profile occupies.
    pub fn channel_count(&self) -> (r: u16)
        ensures
            r == self.channels(),
    {
        match self {
            Profile::Cct => 2,
            Profile::Hsi | Profile::CctGm | Profile::Rgb => 3,
            Profile::Full | Profile::Rgbcw => 5,
            Profile::Advanced => 10,
            Profile::Pixel => 4 + PIXEL_SEGMENTS as u16 * 2,
        }
    }

    /// The role labels of the channels, from the start address on.
    pub open spec fn roles(&self) -> Seq<Seq<char>> {
        match *self {
            Profile::Cct => seq!["Dimmer"@, "CCT"@],
            Profile::CctGm => seq!["Dimmer"@, "CCT"@, "GM"@],
            Profile::Hsi => seq!["Dimmer"@, "Hue"@, "Saturation"@],
            Profile::Rgb => seq!["Red"@, "Green"@, "Blue"@],
            Profile::Rgbcw => seq!["Red"@, "Green"@, "Blue"@, "Cool White"@, "Warm White"@],
            Profile::Full => seq![
                "Dimmer"@,
                "Mode-select (0-127 CCT / 128-255 HSI)"@,
                "CCT / Hue"@,
                "GM / Saturation"@,
                "(reserved)"@,
            ],
            Profile::Advanced => seq![
                "Mode-select (CCT/HSI/FX/RGBCW/XY — see bands)"@,
                "Dimmer"@,
                "CCT / Hue / FX-id / R / X"@,
                "GM / Saturation / FX-speed / G / Y"@,
                "— / — / FX-CCT / B / —"@,
                "— / — / FX-Hue / CW / —"@,
                "— / — / FX-Sat+GM / WW / —"@,
                "— / — / FX-extra / — / —"@,
                "— / — / FX-2nd-value / — / —"@,
                "(reserved)"@,
            ],
            Profile::Pixel => seq![
                "Dimmer (master)"@,
                "Effect (ColorReplace/Single/Two/Three-Moving/Fire — see bands)"@,
                "Speed / motion"@,
                "Direction"@,
                "Seg1 Hue (moving/fire: background)"@,
                "Seg1 Sat"@,
                "Seg2 Hue"@,
                "Seg2 Sat"@,
                "Seg3 Hue"@,
                "Seg3 Sat"@,
                "Seg4 Hue"@,
                "Seg4 Sat"@,
                "Seg5 Hue"@,
                "Seg5 Sat"@,
                "Seg6 Hue"@,
                "Seg6 Sat"@,
                "Seg7 Hue"@,
                "Seg7 Sat"@,
                "Seg8 Hue"@,
                "Seg8 Sat"@,
            ],
        }
    }

    /// Per-channel role labels, in order from the light's start address. For
    /// `full` and `advanced` the later channels are reinterpreted by the live mode
    /// channel, so their labels list every mode's meaning.
    pub fn channel_roles(&self) -> (r: Vec<&'static str>)
        ensures
            r@.len() == self.channels(),
            Seq::new(r@.len(), |i: int| r@[i]@) == self.roles(),
    {
        let r: Vec<&'static str> = match self {
            Profile::Cct => vec!["Dimmer", "CCT"],
            Profile::CctGm => vec!["Dimmer", "CCT", "GM"],
            Profile::Hsi => vec!["Dimmer", "Hue", "Saturation"],
            Profile::Rgb => vec!["Red", "Green", "Blue"],
            Profile::Rgbcw => vec!["Red", "Green", "Blue", "Cool White", "Warm White"],
            Profile::Full => vec![
                "Dimmer",
                "Mode-select (0-127 CCT / 128-255 HSI)",
                "CCT / Hue",
                "GM / Saturation",
                "(reserved)",
            ],
            Profile::Advanced => vec![
                "Mode-select (CCT/HSI/FX/RGBCW/XY — see bands)",
                "Dimmer",
                "CCT / Hue / FX-id / R / X",
                "GM / Saturation / FX-speed / G / Y",
                "— / — / FX-CCT / B / —",
                "— / — / FX-Hue / CW / —",
                "— / — / FX-Sat+GM / WW / —",
                "— / — / FX-extra / — / —",
                "— / — / FX-2nd-value / — / —",
                "(reserved)",
            ],
            Profile::Pixel => vec![
                "Dimmer (master)",
                "Effect (ColorReplace/Single/Two/Three-Moving/Fire — see bands)",
                "Speed / motion",
                "Direction",
                "Seg1 Hue (moving/fire: background)",
                "Seg1 Sat",
                "Seg2 Hue",
                "Seg2 Sat",
                "Seg3 Hue",
                "Seg3 Sat",
                "Seg4 Hue",
                "Seg4 Sat",
                "Seg5 Hue",
                "Seg5 Sat",
                "Seg6 Hue",
                "Seg6 Sat",
                "Seg7 Hue",
                "Seg7 Sat",
                "Seg8 Hue",
                "Seg8 Sat",
            ],
        };
        assert(Seq::new(r@.len(), |i: int| r@[i]@) =~= self.roles());
        r
    }
}

/// Parsing and naming are inverse: a profile's string stands for that profile,
/// and a string that stands for a profile is its string.
pub proof fn law_profile_names_are_inverse(p: Profile, s: Seq<char>)
    ensures
        Profile::named(p.name()) == Some(p),
        Profile::named(s) matches Some(q) ==> q.name() == s,
{
    reveal_strlit("cct");
    reveal_strlit("cct_gm");
    reveal_strlit("hsi");
    reveal_strlit("rgb");
    reveal_strlit("rgbcw");
    reveal_strlit("full");
    reveal_strlit("advanced");
    reveal_strlit("pixel");
    assert("cct"@.len() == 3 && "cct_gm"@.len() == 6 && "hsi"@.len() == 3 && "rgb"@.len() == 3);
    assert("rgbcw"@.len() == 5 && "full"@.len() == 4 && "advanced"@.len() == 8);
    assert("pixel"@.len() == 5);
    assert("cct"@[0] == 'c' && "hsi"@[0] == 'h' && "rgb"@[0] == 'r');
    assert("rgbcw"@[0] == 'r' && "pixel"@[0] == 'p');
}

/// Raw colour-temperature range used to scale the CCT channel, by default
/// 32..=56 (3200K..5600K).
#[derive(Debug, Clone, Copy, PartialEq, Eq, Structural)]
pub struct CctRange {
    pub min: u8,
    pub max: u8,
}

impl Default for CctRange {
    fn default() -> (r: Self)
        ensures
            r.min == 32,
            r.max == 56,
    {
        CctRange { min: 32, max: 56 }
    }
}

/// Mode channel threshold for the `full` profile: below is CCT, from it on HSI.
pub const MODE_HSI_THRESHOLD: u8 = 128;

/// An 8-bit value scaled to 0..=max, rounded to the nearest.
pub open spec fn scaled(dmx: u8, max: int) -> int {
    (dmx * max + 127) / 255
}

/// The colour temperature of a channel value: `min` plus the value scaled to
/// the width of the range (no width where the range is reversed).
pub open spec fn scaled_cct(dmx: u8, range: CctRange) -> u8 {
    (range.min + scaled(
        dmx,
        if range.max > range.min {
            range.max - range.min
        } else {
            0
        },
    )) as u8
}

/// The green/magenta value of a channel value, -50..=50.
pub open spec fn scaled_gm(dmx: u8) -> i8 {
    (scaled(dmx, 100) - 50) as i8
}

/// Scaling stays inside its range, keeps the end points and never falls as the
/// channel value rises.
pub proof fn law_scaling_keeps_order_and_ends(a: u8, b: u8, max: int)
    requires
        0 <= max,
        a <= b,
    ensures
        0 <= scaled(a, max) <= scaled(b, max) <= max,
        scaled(0, max) == 0,
        scaled(255, max) == max,
{
    let x = a as int;
    let y = b as int;
    assert(0 <= x * max <= y * max <= 255 * max) by (nonlinear_arith)
        requires
            0 <= x <= y <= 255,
            0 <= max,
    ;
    assert(0 * max == 0) by (nonlinear_arith);
}

/// Scale an 8-bit DMX value to 0..=max with rounding.
fn scale_to(dmx: u8, max: u32) -> (r: u32)
    requires
        max <= 10_000,
    ensures
        r == scaled(dmx, max as int),
        r <= max,
{
    proof {
        law_scaling_keeps_order_and_ends(dmx, 255, max as int);
        let x = dmx as int;
        let ghost m = max as int;
        assert(0 <= x * m <= 255 * m) by (nonlinear_arith)
            requires
                0 <= x <= 255,
                0 <= m,
        ;
    }
    (dmx as u32 * max + 127) / 255
}

/// Dimmer channel: 0..=100.
pub fn brightness_value(dmx: u8) -> (r: u8)
    ensures
        r == scaled(dmx, 100),
        r <= 100,
{
    scale_to(dmx, 100) as u8
}

/// CCT channel: a raw value inside the range.
pub fn cct_value(dmx: u8, range: CctRange) -> (r: u8)
    ensures
        r == scaled_cct(dmx, range),
        range.min <= range.max ==> range.min <= r <= range.max,
        range.min > range.max ==> r == range.min,
{
    let span: u32 = range.max.saturating_sub(range.min) as u32;
    range.min + scale_to(dmx, span) as u8
}

/// Green/magenta channel: -50..=50.
pub fn gm_value(dmx: u8) -> (r: i8)
    ensures
        r == scaled_gm(dmx),
        -50 <= r <= 50,
{
    (scale_to(dmx, 100) as i32 - 50) as i8
}

/// Hue channel: 0..=360.
pub fn hue_value(dmx: u8) -> (r: u16)
    ensures
        r == scaled(dmx, 360),
        r <= 360,
{
    scale_to(dmx, 360) as u16
}

/// Saturation channel: 0..=100.
pub fn sat_value(dmx: u8) -> (r: u8)
    ensures
        r == scaled(dmx, 100),
        r <= 100,
{
    scale_to(dmx, 100) as u8
}

/// The largest of three.
pub open spec fn max3(a: int, b: int, c: int) -> int {
    let m = if a >= b {
        a
    } else {
        b
    };
    if m >= c {
        m
    } else {
        c
    }
}

/// The smallest of three.
pub open spec fn min3(a: int, b: int, c: int) -> int {
    min_of(min_of(a, b), c)
}

/// The angle `60 * diff / delta` away from a base angle, on the colour circle;
/// the quotient is rounded toward zero.
pub open spec fn hue_angle(base: int, diff: int, delta: int) -> int {
    if diff >= 0 {
        (base + 60 * diff / delta) % 360
    } else {
        (base - 60 * (-diff) / delta) % 360
    }
}

/// The hue of a colour: 0 for greys, else measured from the largest component.
pub open spec fn rgb_hue(r: int, g: int, b: int) -> int {
    let max = max3(r, g, b);
    let delta = max - min3(r, g, b);
    if delta == 0 {
        0
    } else if max == r {
        hue_angle(0, g - b, delta)
    } else if max == g {
        hue_angle(120, b - r, delta)
    } else {
        hue_angle(240, r - g, delta)
    }
}

/// The saturation of a colour in percent, rounded.
pub open spec fn rgb_sat(r: int, g: int, b: int) -> int {
    let max = max3(r, g, b);
    if max == 0 {
        0
    } else {
        ((max - min3(r, g, b)) * 100 + max / 2) / max
    }
}

fn hue_from(base: u32, x: u32, y: u32, delta: u32) -> (h: u16)
    requires
        base <= 240,
        0 < delta <= 255,
        x <= 255,
        y <= 255,
        x - y <= delta,
        y - x <= delta,
    ensures
        h == hue_angle(base as int, x - y, delta as int),
        h < 360,
{
    let d: u32 = if x >= y {
        x - y
    } else {
        y - x
    };
    let q: u32 = 60 * d / delta;
    assert(0 <= 60 * (d as int) / (delta as int) <= 60) by (nonlinear_arith)
        requires
            0 <= d <= delta,
            0 < delta,
    ;
    if x >= y {
        ((base + q) % 360) as u16
    } else {
        assert((base - q) % 360 == (base + 360 - q) % 360);
        ((base + 360 - q) % 360) as u16
    }
}

/// RGB to HSI: hue 0..=359, saturation 0..=100, brightness 0..=100 (the largest
/// component).
pub fn rgb_to_hsi(r: u8, g: u8, b: u8) -> (h: (u16, u8, u8))
    ensures
        h.0 == rgb_hue(r as int, g as int, b as int),
        h.1 == rgb_sat(r as int, g as int, b as int),
        h.2 == scaled(max3(r as int, g as int, b as int) as u8, 100),
        h.0 < 360,
        h.1 <= 100,
        h.2 <= 100,
{
    let (r, g, b): (u32, u32, u32) = (r as u32, g as u32, b as u32);
    let rg: u32 = if r >= g {
        r
    } else {
        g
    };
    let max: u32 = if rg >= b {
        rg
    } else {
        b
    };
    let lo_rg: u32 = if r <= g {
        r
    } else {
        g
    };
    let min: u32 = if lo_rg <= b {
        lo_rg
    } else {
        b
    };
    let delta: u32 = max - min;
    let bri: u8 = brightness_value(max as u8);
    let sat: u8 = if max == 0 {
        0
    } else {
        let ghost m = max as int;
        let ghost d = delta as int;
        assert((d * 100 + m / 2) / m <= 100) by (nonlinear_arith)
            requires
                0 <= d <= m,
                0 < m,
        ;
        ((delta * 100 + max / 2) / max) as u8
    };
    let hue: u16 = if delta == 0 {
        0
    } else if max == r {
        hue_from(0, g, b, delta)
    } else if max == g {
        hue_from(120, b, r, delta)
    } else {
        hue_from(240, r, g, delta)
    };
    (hue, sat, bri)
}

/// FX effect-select channel: effect id 1..=18.
fn fx_select(dmx: u8) -> (r: u8)
    ensures
        r == 1 + scaled(dmx, 17),
        1 <= r <= 18,
{
    (1 + scale_to(dmx, 17)) as u8
}

/// FX speed channel: 1..=10.
fn speed_value(dmx: u8) -> (r: u8)
    ensures
        r == 1 + scaled(dmx, 9),
        1 <= r <= 10,
{
    (1 + scale_to(dmx, 9)) as u8
}

/// CIE xy coordinate channel: 0..=8000.
fn xy_value(dmx: u8) -> (r: u16)
    ensures
        r == scaled(dmx, 8000),
        r <= 8000,
{
    scale_to(dmx, 8000) as u16
}

/// The pixel effect of an effect-select value: five bands.
pub open spec fn effect_band(dmx: u8) -> u8 {
    if dmx <= 51 {
        1
    } else if dmx <= 102 {
        3
    } else if dmx <= 153 {
        4
    } else if dmx <= 204 {
        5
    } else {
        7
    }
}

/// Pixel effect-select channel: effect id, in five value bands.
pub fn pixel_effect_select(dmx: u8) -> (r: u8)
    ensures
        r == effect_band(dmx),
{
    match dmx {
        0..=51 => 1,
        52..=102 => 3,
        103..=153 => 4,
        154..=204 => 5,
        _ => 7,
    }
}

/// The value of channel `i` of a slice; missing channels read as 0.
pub open spec fn channel(slice: Seq<u8>, i: int) -> u8 {
    if 0 <= i < slice.len() {
        slice[i]
    } else {
        0
    }
}

fn ch(slice: &[u8], i: usize) -> (r: u8)
    ensures
        r == channel(slice@, i as int),
{
    if i < slice.len() {
        slice[i]
    } else {
        0
    }
}

/// The colour of pixel segment `i`: hue and saturation from its two channels.
pub open spec fn segment(slice: Seq<u8>, i: int) -> Block {
    Block::Hsi {
        hue: scaled(channel(slice, 4 + 2 * i), 360) as u16,
        sat: scaled(channel(slice, 5 + 2 * i), 100) as u8,
    }
}

fn segment_at(slice: &[u8], i: usize) -> (r: Block)
    requires
        i < 8,
    ensures
        r == segment(slice@, i as int),
{
    Block::Hsi { hue: hue_value(ch(slice, 4 + i * 2)), sat: sat_value(ch(slice, 5 + i * 2)) }
}

/// The state every mapped state starts from: the default, switched on.
pub open spec fn lit() -> LightState {
    LightState { power: true, ..default_state() }
}

/// White with a tint.
pub open spec fn white(brightness: u8, cct: u8, gm: i8) -> LightState {
    LightState { mode: Mode::Cct, brightness, cct, gm, ..lit() }
}

/// A colour.
pub open spec fn colour(hue: u16, sat: u8, brightness: u8) -> LightState {
    LightState { mode: Mode::Hsi, hue, sat, brightness, ..lit() }
}

/// Direct LED channels.
pub open spec fn banks(brightness: u8, r: u8, g: u8, b: u8, cw: u8, ww: u8) -> LightState {
    LightState { mode: Mode::Rgbcw, brightness, r, g, b, cw, ww, ..lit() }
}

/// What the `advanced` profile makes of its ten channels.
pub open spec fn mapped_advanced(s: Seq<u8>, cct: CctRange) -> LightState {
    let sel = channel(s, 0);
    let bri = scaled(channel(s, 1), 100) as u8;
    let c = |i: int| channel(s, i);
    if mode_band::within(mode_band::CCT, sel) {
        white(bri, scaled_cct(c(2), cct), scaled_gm(c(3)))
    } else if mode_band::within(mode_band::HSI, sel) {
        colour(scaled(c(2), 360) as u16, scaled(c(3), 100) as u8, bri)
    } else if mode_band::within(mode_band::FX, sel) {
        let id = (1 + scaled(c(2), 17)) as u8;
        LightState {
            mode: Mode::Fx,
            brightness: bri,
            fx_id: id,
            fx_speed: (1 + scaled(c(3), 9)) as u8,
            cct: scaled_cct(c(4), cct),
            hue: scaled(c(5), 360) as u16,
            sat: scaled(c(6), 100) as u8,
            gm: scaled_gm(c(6)),
            fx_extra: scaled(c(7), 10) as u8,
            fx_val2: if id == 13 {
                scaled_cct(c(8), cct) as u16
            } else {
                scaled(c(8), 360) as u16
            },
            ..lit()
        }
    } else if mode_band::within(mode_band::RGBCW, sel) {
        banks(bri, c(2), c(3), c(4), c(5), c(6))
    } else if mode_band::within(mode_band::XY, sel) {
        LightState {
            mode: Mode::Xy,
            brightness: bri,
            x: scaled(c(2), 8000) as u16,
            y: scaled(c(3), 8000) as u16,
            ..lit()
        }
    } else {
        white(bri, scaled_cct(128, cct), 0)
    }
}

/// The state a light's channels ask for.
pub open spec fn mapped(profile: Profile, s: Seq<u8>, cct: CctRange) -> LightState {
    let c = |i: int| channel(s, i);
    match profile {
        Profile::Cct => white(scaled(c(0), 100) as u8, scaled_cct(c(1), cct), 0),
        Profile::CctGm => white(
            scaled(c(0), 100) as u8,
            scaled_cct(c(1), cct),
            scaled_gm(c(2)),
        ),
        Profile::Hsi => colour(
            scaled(c(1), 360) as u16,
            scaled(c(2), 100) as u8,
            scaled(c(0), 100) as u8,
        ),
        Profile::Rgb => colour(
            rgb_hue(c(0) as int, c(1) as int, c(2) as int) as u16,
            rgb_sat(c(0) as int, c(1) as int, c(2) as int) as u8,
            scaled(max3(c(0) as int, c(1) as int, c(2) as int) as u8, 100) as u8,
        ),
        Profile::Rgbcw => banks(100, c(0), c(1), c(2), c(3), c(4)),
        Profile::Full => if c(1) < MODE_HSI_THRESHOLD {
            white(scaled(c(0), 100) as u8, scaled_cct(c(2), cct), scaled_gm(c(3)))
        } else {
            colour(scaled(c(2), 360) as u16, scaled(c(3), 100) as u8, scaled(c(0), 100) as u8)
        },
        Profile::Advanced => mapped_advanced(s, cct),
        Profile::Pixel => LightState {
            mode: Mode::Pixel,
            brightness: scaled(c(0), 100) as u8,
            pixel_effect: effect_band(c(1)),
            pixel_speed: scaled(c(2), 100) as u8,
            pixel_dir: if c(3) < 128 {
                0
            } else {
                1
            },
            seg_count: 8,
            segments: [
                segment(s, 0),
                segment(s, 1),
                segment(s, 2),
                segment(s, 3),
                segment(s, 4),
                segment(s, 5),
                segment(s, 6),
                segment(s, 7),
            ],
            ..lit()
        },
    }
}

fn map_advanced(slice: &[u8], cct: CctRange) -> (st: LightState)
    ensures
        st == mapped_advanced(slice@, cct),
{
    let mut st = LightState::default();
    st.power = true;
    let mode_sel: u8 = ch(slice, 0);
    st.brightness = brightness_value(ch(slice, 1));
    if mode_band::contains(mode_band::CCT, mode_sel) {
        st.mode = Mode::Cct;
        st.cct = cct_value(ch(slice, 2), cct);
        st.gm = gm_value(ch(slice, 3));
    } else if mode_band::contains(mode_band::HSI, mode_sel) {
        st.mode = Mode::Hsi;
        st.hue = hue_value(ch(slice, 2));
        st.sat = sat_value(ch(slice, 3));
    } else if mode_band::contains(mode_band::FX, mode_sel) {
        st.mode = Mode::Fx;
        st.fx_id = fx_select(ch(slice, 2));
        st.fx_speed = speed_value(ch(slice, 3));
        st.cct = cct_value(ch(slice, 4), cct);
        st.hue = hue_value(ch(slice, 5));
        // Channel 7 doubles as saturation (hue effects) and tint (white effects).
        st.sat = sat_value(ch(slice, 6));
        st.gm = gm_value(ch(slice, 6));
        st.fx_extra = scale_to(ch(slice, 7), 10) as u8;
        // Channel 9 is the second colour temperature of effect 13, else a hue.
        st.fx_val2 = if st.fx_id == 13 {
            cct_value(ch(slice, 8), cct) as u16
        } else {
            hue_value(ch(slice, 8))
        };
    } else if mode_band::contains(mode_band::RGBCW, mode_sel) {
        st.mode = Mode::Rgbcw;
        st.r = ch(slice, 2);
        st.g = ch(slice, 3);
        st.b = ch(slice, 4);
        st.cw = ch(slice, 5);
        st.ww = ch(slice, 6);
    } else if mode_band::contains(mode_band::XY, mode_sel) {
        st.mode = Mode::Xy;
        st.x = xy_value(ch(slice, 2));
        st.y = xy_value(ch(slice, 3));
    } else {
        st.mode = Mode::Cct;
        st.cct = cct_value(128, cct);
    }
    st
}

/// Map a light's DMX channel slice to a desired `LightState`.
///
/// `slice` should be `profile.channel_count()` bytes; missing channels are read
/// as 0.
pub fn map_dmx(profile: Profile, slice: &[u8], cct: CctRange) -> (st: LightState)
    ensures
        st == mapped(profile, slice@, cct),
{
    let mut st = LightState::default();
    st.power = true;
    match profile {
        Profile::Cct => {
            st.mode = Mode::Cct;
            st.brightness = brightness_value(ch(slice, 0));
            st.cct = cct_value(ch(slice, 1), cct);
        },
        Profile::CctGm => {
            st.mode = Mode::Cct;
            st.brightness = brightness_value(ch(slice, 0));
            st.cct = cct_value(ch(slice, 1), cct);
            st.gm = gm_value(ch(slice, 2));
        },
        Profile::Hsi => {
            st.mode = Mode::Hsi;
            st.brightness = brightness_value(ch(slice, 0));
            st.hue = hue_value(ch(slice, 1));
            st.sat = sat_value(ch(slice, 2));
        },
        Profile::Rgb => {
            st.mode = Mode::Hsi;
            let (hue, sat, bri): (u16, u8, u8) = rgb_to_hsi(
                ch(slice, 0),
                ch(slice, 1),
                ch(slice, 2),
            );
            st.hue = hue;
            st.sat = sat;
            st.brightness = bri;
        },
        Profile::Rgbcw => {
            st.mode = Mode::Rgbcw;
            st.brightness = 100;
            st.r = ch(slice, 0);
            st.g = ch(slice, 1);
            st.b = ch(slice, 2);
            st.cw = ch(slice, 3);
            st.ww = ch(slice, 4);
        },
        Profile::Full => {
            st.brightness = brightness_value(ch(slice, 0));
            if ch(slice, 1) < MODE_HSI_THRESHOLD {
                st.mode = Mode::Cct;
                st.cct = cct_value(ch(slice, 2), cct);
                st.gm = gm_value(ch(slice, 3));
            } else {
                st.mode = Mode::Hsi;
                st.hue = hue_value(ch(slice, 2));
                st.sat = sat_value(ch(slice, 3));
            }
        },
        Profile::Advanced => {
            st = map_advanced(slice, cct);
        },
        Profile::Pixel => {
            st.mode = Mode::Pixel;
            st.brightness = brightness_value(ch(slice, 0));
            st.pixel_effect = pixel_effect_select(ch(slice, 1));
            st.pixel_speed = brightness_value(ch(slice, 2));
            st.pixel_dir = if ch(slice, 3) < 128 {
                0
            } else {
                1
            };
            st.seg_count = PIXEL_SEGMENTS as u8;
            st.segments = [
                segment_at(slice, 0),
                segment_at(slice, 1),
                segment_at(slice, 2),
                segment_at(slice, 3),
                segment_at(slice, 4),
                segment_at(slice, 5),
                segment_at(slice, 6),
                segment_at(slice, 7),
            ];
        },
    }
    st
}

/// Every mapped state is on, is no seed, and holds its parameters to the ranges
/// the encoders expect. Where the light's colour-temperature range is ordered, the
/// colour temperature of a white or an effect lies in it, and so does the second one of
/// the effect that has two.
pub proof fn law_mapped_states_are_on_and_in_range(profile: Profile, s: Seq<u8>, cct: CctRange)
    ensures
        ({
            let st = mapped(profile, s, cct);
            &&& st.power
            &&& !st.seed
            &&& st.brightness <= 100
            &&& st.sat <= 100
            &&& st.hue <= 360
            &&& -50 <= st.gm <= 50
            &&& st.x <= 8000 && st.y <= 8000
            &&& 1 <= st.fx_id <= 18
            &&& 1 <= st.fx_speed <= 10
            &&& st.fx_extra <= 10
            &&& cct.min <= cct.max && (st.mode == Mode::Cct || st.mode == Mode::Fx) ==> cct.min
                <= st.cct <= cct.max
            &&& cct.min <= cct.max && st.mode == Mode::Fx && st.fx_id == 13 ==> cct.min
                <= st.fx_val2 <= cct.max
            &&& st.fx_id != 13 ==> st.fx_val2 <= 360
            &&& st.pixel_speed <= 100
            &&& crate::protocol::pixel::rendered(st.pixel_effect) == st.pixel_effect
        }),
{
    let st = mapped(profile, s, cct);
    assert forall|d: u8, m: int| 0 <= m implies 0 <= #[trigger] scaled(d, m) <= m by {
        law_scaling_keeps_order_and_ends(d, 255, m);
    }
    if profile == Profile::Rgb {
        let (r, g, b) = (channel(s, 0) as int, channel(s, 1) as int, channel(s, 2) as int);
        let max = max3(r, g, b);
        let d = max - min3(r, g, b);
        if max != 0 {
            assert(0 <= (d * 100 + max / 2) / max <= 100) by (nonlinear_arith)
                requires
                    0 <= d <= max,
                    0 < max,
            ;
        }
    }
}

/// Only the light's own channels count: two slices that agree on the profile's
/// channels map to the same state.
pub proof fn law_mapping_reads_only_its_channels(
    profile: Profile,
    a: Seq<u8>,
    b: Seq<u8>,
    cct: CctRange,
)
    requires
        forall|i: int| 0 <= i < profile.channels() ==> channel(a, i) == channel(b, i),
    ensures
        mapped(profile, a, cct) == mapped(profile, b, cct),
{
    assert(channel(a, 0) == channel(b, 0));
    assert(channel(a, 1) == channel(b, 1));
    if profile != Profile::Cct {
        assert(channel(a, 2) == channel(b, 2));
    }
    if profile == Profile::Rgbcw || profile == Profile::Full || profile == Profile::Advanced
        || profile == Profile::Pixel {
        assert(channel(a, 3) == channel(b, 3));
        assert(channel(a, 4) == channel(b, 4));
    }
    if profile == Profile::Advanced || profile == Profile::Pixel {
        assert forall|i: int| 0 <= i < 10 implies #[trigger] channel(a, i) == channel(b, i) by {}
    }
    if profile == Profile::Pixel {
        assert forall|i: int| 0 <= i < 8 implies #[trigger] segment(a, i) == segment(b, i) by {
            assert(channel(a, 4 + 2 * i) == channel(b, 4 + 2 * i));
            assert(channel(a, 5 + 2 * i) == channel(b, 5 + 2 * i));
        }
    }
}

/// Extract a light's channel slice from a universe DMX buffer. `address1` is the
/// 1-based start channel; `None` if it is 0 or the channels run past the data.
pub fn extract_slice(buffer: &[u8], address1: u16, count: u16) -> (r: Option<&[u8]>)
    ensures
        r is Some <==> 1 <= address1 && address1 - 1 + count <= buffer@.len(),
        r matches Some(s) ==> s@ == buffer@.subrange(address1 - 1, address1 - 1 + count),
{
    if address1 == 0 {
        return None;
    }
    let start: usize = address1 as usize - 1;
    let end: usize = start + count as usize;
    if end <= buffer.len() {
        Some(vstd::slice::slice_subrange(buffer, start, end))
    } else {
        None
    }
}

} // verus!
