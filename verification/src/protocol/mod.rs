//! Neewer BLE command encoding.
//!
//! Every Neewer light (classic `0x78`, Infinity `0x78` with the MAC inside, and
//! Home `0x7A`) shares one GATT service and one checksum: the final byte is the
//! sum of all preceding bytes, masked to 8 bits.
//!
//! The submodules hold one encoder per frame form. Choosing the form a given
//! light wants is the driver's job.
//!
//! Ranges used throughout:
//! - `brr` brightness 0..=100 (Home re-encodes it as 0..=1000)
//! - `cct` raw colour-temperature value, model-dependent (32..=56 = 3200K..5600K)
//! - `gm`  green/magenta -50..=50, sent as `gm + 50`
//! - `hue` 0..=360, `sat` 0..=100

use vstd::prelude::*;
use vstd::string::*;
use crate::text::{dec, push_dec, push_signed_dec, signed_dec};

pub mod classic;
pub mod home;
pub mod infinity;
pub mod laws;
pub mod ota;
pub mod pixel;
pub mod queries;
pub mod replies;
pub mod uuids;

verus! {

broadcast use vstd::string::group_string_axioms;

/// The sum of all bytes.
pub open spec fn byte_sum(bytes: Seq<u8>) -> nat
    decreases bytes.len(),
{
    if bytes.len() == 0 {
        0
    } else {
        byte_sum(bytes.drop_last()) + bytes.last() as nat
    }
}

/// The checksum of a frame body: its byte sum modulo 256.
pub open spec fn ck(bytes: Seq<u8>) -> u8 {
    (byte_sum(bytes) % 256) as u8
}

/// A frame body with its checksum byte behind it.
pub open spec fn sealed(body: Seq<u8>) -> Seq<u8> {
    body.push(ck(body))
}

/// A frame whose last byte is the checksum of everything before it.
pub open spec fn checksummed(f: Seq<u8>) -> bool {
    f.len() > 0 && f.last() == ck(f.drop_last())
}

/// The standard frame shape `head tag LEN payload.. checksum`: the checksum
/// closes the frame and `LEN` counts exactly the payload bytes.
pub open spec fn well_framed(f: Seq<u8>) -> bool {
    &&& f.len() >= 4
    &&& f[2] == f.len() - 4
    &&& checksummed(f)
}

/// The low byte of a 16-bit value.
pub open spec fn lo(v: int) -> u8 {
    (v % 256) as u8
}

/// The high byte of a 16-bit value.
pub open spec fn hi(v: int) -> u8 {
    (v / 256 % 256) as u8
}

/// The smaller of two numbers.
pub open spec fn min_of(a: int, b: int) -> int {
    if a <= b {
        a
    } else {
        b
    }
}

/// `v` held to the range `a..=b`.
pub open spec fn clamped(v: int, a: int, b: int) -> int {
    if v < a {
        a
    } else if v > b {
        b
    } else {
        v
    }
}

/// The wire byte of a green/magenta value: clamped to -50..=50, plus 50.
pub open spec fn gm_wire(gm: i8) -> u8 {
    (clamped(gm as int, -50, 50) + 50) as u8
}

/// A sealed body gives back the body and its checksum.
pub proof fn lemma_sealed(body: Seq<u8>)
    ensures
        sealed(body).drop_last() == body,
        sealed(body).last() == ck(body),
        checksummed(sealed(body)),
{
    assert(sealed(body).drop_last() =~= body);
}

/// Changing one byte always breaks the checksum: a frame that differs from a
/// checksummed one in a single byte, the checksum itself among them, is not checksummed.
pub proof fn law_single_byte_corruption_is_detected(f: Seq<u8>, i: int, b: u8)
    requires
        checksummed(f),
        0 <= i < f.len(),
        b != f[i],
    ensures
        !checksummed(f.update(i, b)),
{
    let body = f.drop_last();
    let g = f.update(i, b);
    if i == f.len() - 1 {
        assert(g.drop_last() =~= body);
    } else {
        assert(g.drop_last() =~= body.update(i, b));
        lemma_sum_update(body, i, b);
        let s = byte_sum(body) as int;
        let t = byte_sum(body.update(i, b)) as int;
        assert(t == s - f[i] + b);
        assert(s % 256 != t % 256) by {
            if s % 256 == t % 256 {
                assert((t - s) % 256 == 0) by (nonlinear_arith)
                    requires
                        s % 256 == t % 256,
                ;
            }
        }
    }
}

proof fn lemma_sum_update(s: Seq<u8>, i: int, b: u8)
    requires
        0 <= i < s.len(),
    ensures
        byte_sum(s.update(i, b)) == byte_sum(s) - s[i] + b,
    decreases s.len(),
{
    let t = s.update(i, b);
    if i == s.len() - 1 {
        assert(t.drop_last() =~= s.drop_last());
    } else {
        assert(t.drop_last() =~= s.drop_last().update(i, b));
        lemma_sum_update(s.drop_last(), i, b);
    }
}

/// The byte sum of two stretches is the sum of their byte sums.
pub proof fn lemma_sum_concat(a: Seq<u8>, b: Seq<u8>)
    ensures
        byte_sum(a + b) == byte_sum(a) + byte_sum(b),
    decreases b.len(),
{
    if b.len() == 0 {
        assert(a + b =~= a);
    } else {
        assert((a + b).drop_last() =~= a + b.drop_last());
        lemma_sum_concat(a, b.drop_last());
    }
}

/// Which control mode a light is currently being driven in.
#[derive(Debug, Clone, Copy, PartialEq, Eq, Structural)]
pub enum Mode {
    /// Bi-colour / white: brightness + colour temperature (+ optional GM tint).
    Cct,
    /// Colour: hue + saturation + intensity.
    Hsi,
    /// CIE xy colour coordinate (+ brightness).
    Xy,
    /// Direct R/G/B + cool-white/warm-white channel mix.
    Rgbcw,
    /// Built-in effect engine: one of 18 effects with per-effect parameters.
    Fx,
    /// Per-segment colour: the tube is split into `seg_count` bands.
    Pixel,
}

/// The desired output of a single light, in native parameter ranges.
///
/// Brightness and saturation are 0..=100, hue 0..=360, gm -50..=50, cct is a raw
/// model-dependent value. The XY/FX fields only matter in their `mode`; the
/// CCT/HSI fields are reused by FX.
#[derive(Debug, Clone, Copy, PartialEq, Eq)]
pub struct LightState {
    pub power: bool,
    pub mode: Mode,
    pub brightness: u8,
    pub cct: u8,
    pub gm: i8,
    pub hue: u16,
    pub sat: u8,
    /// CIE x, times 10000 (0..=8000).
    pub x: u16,
    /// CIE y, times 10000 (0..=8000).
    pub y: u16,
    pub r: u8,
    pub g: u8,
    pub b: u8,
    /// Cool white.
    pub cw: u8,
    /// Warm white.
    pub ww: u8,
    /// Effect id 1..=18.
    pub fx_id: u8,
    /// Effect speed 1..=10.
    pub fx_speed: u8,
    /// The effect's own byte (sparks, colour or mode, by effect).
    pub fx_extra: u8,
    /// Second value of the loop effects (CCT2 or Hue2).
    pub fx_val2: u16,
    /// Up to 8 per-segment colour blocks.
    pub segments: [pixel::Block; 8],
    /// How many segments are active.
    pub seg_count: u8,
    /// Pixel effect motion, 0..=100.
    pub pixel_speed: u8,
    /// Pixel effect id: 1, 3, 4, 5 or 7.
    pub pixel_effect: u8,
    /// Pixel flow direction or fire orientation (0 or 1).
    pub pixel_dir: u8,
    /// True only for the passive state a light starts with before any DMX has
    /// been mapped to it.
    pub seed: bool,
}

impl LightState {
    /// How many pixel segments are in use: the count, at most 8.
    pub open spec fn active_segments(&self) -> int {
        min_of(self.seg_count as int, 8)
    }

    /// The active pixel segments as a `Block` slice (for the pixel encoder).
    pub fn pixel_blocks(&self) -> (r: &[pixel::Block])
        ensures
            r@ == self.segments@.take(self.active_segments()),
    {
        let n: usize = if self.seg_count < 8 {
            self.seg_count as usize
        } else {
            8
        };
        let all: &[pixel::Block] = self.segments.as_slice();
        vstd::slice::slice_subrange(all, 0, n)
    }

    /// The log line of a state, with only the fields its mode uses.
    pub open spec fn summary_text(&self) -> Seq<char> {
        match self.mode {
            Mode::Cct => "CCT "@ + dec(self.cct as nat * 100) + "K @ "@ + dec(
                self.brightness as nat,
            ) + "% gm"@ + signed_dec(self.gm as int),
            Mode::Hsi => "HSI hue="@ + dec(self.hue as nat) + " sat="@ + dec(self.sat as nat)
                + " @ "@ + dec(self.brightness as nat) + "%"@,
            Mode::Xy => "XY x="@ + dec(self.x as nat) + " y="@ + dec(self.y as nat) + " @ "@ + dec(
                self.brightness as nat,
            ) + "%"@,
            Mode::Rgbcw => "RGBCW r="@ + dec(self.r as nat) + " g="@ + dec(self.g as nat) + " b="@
                + dec(self.b as nat) + " cw="@ + dec(self.cw as nat) + " ww="@ + dec(
                self.ww as nat,
            ) + " @ "@ + dec(self.brightness as nat) + "%"@,
            Mode::Fx => "FX #"@ + dec(self.fx_id as nat) + " speed="@ + dec(self.fx_speed as nat)
                + " @ "@ + dec(self.brightness as nat) + "%"@,
            Mode::Pixel => "PIXEL fx#"@ + dec(self.pixel_effect as nat) + " "@ + dec(
                self.seg_count as nat,
            ) + " seg speed="@ + dec(self.pixel_speed as nat) + " @ "@ + dec(self.brightness as nat)
                + "%"@,
        }
    }

    /// A concise, human-readable one-line summary for logs, e.g.
    /// `"CCT 5600K @ 50% gm+0"` or `"HSI hue=180 sat=100 @ 75%"`.
    pub fn summary(&self) -> (r: String)
        ensures
            r@ == self.summary_text(),
    {
        match self.mode {
            Mode::Cct => {
                let mut s = "CCT ".to_string();
                push_dec(&mut s, self.cct as u64 * 100);
                s.append("K @ ");
                push_dec(&mut s, self.brightness as u64);
                s.append("% gm");
                push_signed_dec(&mut s, self.gm as i64);
                s
            },
            Mode::Hsi => {
                let mut s = "HSI hue=".to_string();
                push_dec(&mut s, self.hue as u64);
                s.append(" sat=");
                push_dec(&mut s, self.sat as u64);
                s.append(" @ ");
                push_dec(&mut s, self.brightness as u64);
                s.append("%");
                s
            },
            Mode::Xy => {
                let mut s = "XY x=".to_string();
                push_dec(&mut s, self.x as u64);
                s.append(" y=");
                push_dec(&mut s, self.y as u64);
                s.append(" @ ");
                push_dec(&mut s, self.brightness as u64);
                s.append("%");
                s
            },
            Mode::Rgbcw => {
                let mut s = "RGBCW r=".to_string();
                push_dec(&mut s, self.r as u64);
                s.append(" g=");
                push_dec(&mut s, self.g as u64);
                s.append(" b=");
                push_dec(&mut s, self.b as u64);
                s.append(" cw=");
                push_dec(&mut s, self.cw as u64);
                s.append(" ww=");
                push_dec(&mut s, self.ww as u64);
                s.append(" @ ");
                push_dec(&mut s, self.brightness as u64);
                s.append("%");
                s
            },
            Mode::Fx => {
                let mut s = "FX #".to_string();
                push_dec(&mut s, self.fx_id as u64);
                s.append(" speed=");
                push_dec(&mut s, self.fx_speed as u64);
                s.append(" @ ");
                push_dec(&mut s, self.brightness as u64);
                s.append("%");
                s
            },
            Mode::Pixel => {
                let mut s = "PIXEL fx#".to_string();
                push_dec(&mut s, self.pixel_effect as u64);
                s.append(" ");
                push_dec(&mut s, self.seg_count as u64);
                s.append(" seg speed=");
                push_dec(&mut s, self.pixel_speed as u64);
                s.append(" @ ");
                push_dec(&mut s, self.brightness as u64);
                s.append("%");
                s
            },
        }
    }
}

/// The state every other state is built from: off, 50% white at 3200K, no
/// colour, effect 1, no segments.
pub open spec fn default_state() -> LightState {
    LightState {
        power: false,
        mode: Mode::Cct,
        brightness: 50,
        cct: 32,
        gm: 0,
        hue: 0,
        sat: 0,
        x: 0,
        y: 0,
        r: 0,
        g: 0,
        b: 0,
        cw: 0,
        ww: 0,
        fx_id: 1,
        fx_speed: 5,
        fx_extra: 0,
        fx_val2: 0,
        segments: [
            pixel::Block::Off,
            pixel::Block::Off,
            pixel::Block::Off,
            pixel::Block::Off,
            pixel::Block::Off,
            pixel::Block::Off,
            pixel::Block::Off,
            pixel::Block::Off,
        ],
        seg_count: 0,
        pixel_speed: 0,
        pixel_effect: 1,
        pixel_dir: 1,
        seed: false,
    }
}

impl Default for LightState {
    fn default() -> (r: Self)
        ensures
            r == default_state(),
    {
        LightState {
            power: false,
            mode: Mode::Cct,
            brightness: 50,
            cct: 32,
            gm: 0,
            hue: 0,
            sat: 0,
            x: 0,
            y: 0,
            r: 0,
            g: 0,
            b: 0,
            cw: 0,
            ww: 0,
            fx_id: 1,
            fx_speed: 5,
            fx_extra: 0,
            fx_val2: 0,
            segments: [
                pixel::Block::Off,
                pixel::Block::Off,
                pixel::Block::Off,
                pixel::Block::Off,
                pixel::Block::Off,
                pixel::Block::Off,
                pixel::Block::Off,
                pixel::Block::Off,
            ],
            seg_count: 0,
            pixel_speed: 0,
            pixel_effect: 1,
            pixel_dir: 1,
            seed: false,
        }
    }
}

/// Neewer checksum: low 8 bits of the sum of every byte given.
pub fn checksum(bytes: &[u8]) -> (r: u8)
    ensures
        r == ck(bytes@),
{
    let mut acc: u8 = 0;
    let mut i: usize = 0;
    while i < bytes.len()
        invariant
            i <= bytes.len(),
            acc == byte_sum(bytes@.take(i as int)) % 256,
        decreases bytes.len() - i,
    {
        assert(bytes@.take(i + 1).drop_last() =~= bytes@.take(i as int));
        acc = acc.wrapping_add(bytes[i]);
        i += 1;
    }
    assert(bytes@.take(bytes@.len() as int) =~= bytes@);
    acc
}

/// Append the trailing checksum byte to a frame and return it.
pub fn with_checksum(bytes: Vec<u8>) -> (r: Vec<u8>)
    ensures
        r@ == sealed(bytes@),
        r@.drop_last() == bytes@,
        checksummed(r@),
{
    proof {
        lemma_sealed(bytes@);
    }
    let mut bytes = bytes;
    let c: u8 = checksum(&bytes);
    bytes.push(c);
    bytes
}

/// Encode `gm` (-50..=50) as the on-the-wire byte (0..=100).
pub fn gm_byte(gm: i8) -> (r: u8)
    ensures
        r == gm_wire(gm),
        r <= 100,
{
    if gm < -50 {
        0
    } else if gm > 50 {
        100
    } else {
        (gm as i16 + 50) as u8
    }
}

/// The frames of a list, as byte sequences.
pub open spec fn frames_of(frames: Seq<Vec<u8>>) -> Seq<Seq<u8>> {
    Seq::new(frames.len(), |i: int| frames[i]@)
}

} // verus!
