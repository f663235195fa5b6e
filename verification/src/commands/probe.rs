//! The frames of the `test` command: what it sends to make one light prove
//! something, with someone watching. Every probe ends on a dim warm white, for a light
//! holds its last command forever.

use vstd::prelude::*;
use vstd::string::*;
use crate::protocol::infinity::{
    effect_data, fx_direct_frame, fx_frame, law_fx_forms_carry_the_same_payload,
};
use crate::protocol::pixel::{
    paint, paint_frames, palette_frame, pixel_frame, raw_frame, Block, RUN_PLAY,
};
use crate::protocol::{classic, frames_of, gm_wire, hi, home, infinity, lo, min_of, queries, sealed};
use crate::text::same_text;

pub mod laws;

verus! {

broadcast use vstd::string::group_string_axioms;

/// Which optional probes a `test` run performs.
#[derive(Debug, Clone, Copy, Default)]
pub struct TestProbes {
    /// Cycle red, green and blue.
    pub colors: bool,
    /// Probe the advanced modes.
    pub modes: bool,
    /// Probe per-segment control.
    pub pixel: bool,
    /// Read the status and stop.
    pub status: bool,
}

/// Which family's frames the `test` command sends.
#[derive(Debug, Clone, Copy, PartialEq, Eq, Structural)]
pub enum TestDriver {
    /// Classic frames: the model is not looked up here.
    Auto,
    Classic,
    Infinity,
    Home,
}

/// There is no driver of that name.
#[derive(Debug, Clone, Copy, PartialEq, Eq, Structural)]
pub struct UnknownDriver;

/// The family with a name.
pub open spec fn driver_called(s: Seq<char>) -> Option<TestDriver> {
    if s == "auto"@ {
        Some(TestDriver::Auto)
    } else if s == "classic"@ {
        Some(TestDriver::Classic)
    } else if s == "infinity"@ {
        Some(TestDriver::Infinity)
    } else if s == "home"@ {
        Some(TestDriver::Home)
    } else {
        None
    }
}

/// A power frame of a family.
pub open spec fn power_bytes(drv: TestDriver, mac: Seq<u8>, on: bool) -> Seq<u8> {
    let v: u8 = if on {
        0x01
    } else {
        0x02
    };
    match drv {
        TestDriver::Infinity => sealed(seq![0x78u8, 0x8D, 0x08] + mac + seq![0x81u8, v]),
        TestDriver::Home => sealed(seq![0x7Au8, 0x0A, 0x01, v]),
        _ => sealed(seq![0x78u8, 0x81, 0x01, v]),
    }
}

/// A white frame of a family, brightness in percent. Classic lights get the
/// four-byte form: the two-byte one does not end a running pixel effect.
pub open spec fn cct_bytes(drv: TestDriver, mac: Seq<u8>, brr: u8, temp: u8) -> Seq<u8> {
    match drv {
        TestDriver::Infinity => sealed(
            seq![0x78u8, 0x90, 0x0B] + mac + seq![0x87u8, brr, temp, gm_wire(0), 0x04],
        ),
        TestDriver::Home => sealed(
            seq![
                0x7Au8,
                0x0C,
                0x06,
                home::tens((brr * 10) as u16),
                home::units((brr * 10) as u16),
                temp,
                0x00,
                0x01,
                0x00,
            ],
        ),
        _ => sealed(seq![0x78u8, 0x87, 0x04, brr, temp, gm_wire(0), 0x00]),
    }
}

/// A fully saturated colour at full brightness.
pub open spec fn hsi_bytes(drv: TestDriver, mac: Seq<u8>, hue: u16) -> Seq<u8> {
    let h = min_of(hue as int, 360);
    match drv {
        TestDriver::Infinity => sealed(
            seq![0x78u8, 0x8F, 0x0C] + mac + seq![0x86u8, lo(h), hi(h), 100, 100, 0x00],
        ),
        TestDriver::Home => sealed(
            seq![
                0x7Au8,
                0x0D,
                0x00,
                0x0A,
                home::tens(1000),
                home::units(1000),
                0x01,
                0x64,
                hi(h),
                lo(h),
                100,
                0x00,
                0x01,
                0x00,
            ],
        ),
        _ => sealed(seq![0x78u8, 0x86, 0x04, lo(h), hi(h), 100, 100]),
    }
}

impl TestDriver {
    /// The family of a `--driver` text. No name but the four is taken for one.
    pub fn parse(s: &str) -> (r: Result<Self, UnknownDriver>)
        ensures
            match r {
                Ok(drv) => driver_called(s@) == Some(drv),
                Err(_) => driver_called(s@) is None,
            },
    {
        if same_text(s, "auto") {
            Ok(TestDriver::Auto)
        } else if same_text(s, "classic") {
            Ok(TestDriver::Classic)
        } else if same_text(s, "infinity") {
            Ok(TestDriver::Infinity)
        } else if same_text(s, "home") {
            Ok(TestDriver::Home)
        } else {
            Err(UnknownDriver)
        }
    }

    /// A power frame.
    pub fn power(self, mac: [u8; 6], on: bool) -> (f: Vec<u8>)
        ensures
            f@ == power_bytes(self, mac@, on),
    {
        match self {
            TestDriver::Infinity => infinity::power(mac, on),
            TestDriver::Home => home::power(on),
            TestDriver::Auto | TestDriver::Classic => classic::power(on),
        }
    }

    /// A white frame.
    pub fn cct(self, mac: [u8; 6], brr: u8, temp: u8) -> (f: Vec<u8>)
        ensures
            f@ == cct_bytes(self, mac@, brr, temp),
    {
        match self {
            TestDriver::Infinity => infinity::cct(mac, brr, temp, 0),
            TestDriver::Home => home::cct(brr as u16 * 10, temp),
            TestDriver::Auto | TestDriver::Classic => classic::cct4(brr, temp, 0),
        }
    }

    /// A fully saturated colour at full brightness.
    pub fn hsi(self, mac: [u8; 6], hue: u16) -> (f: Vec<u8>)
        ensures
            f@ == hsi_bytes(self, mac@, hue),
    {
        match self {
            TestDriver::Infinity => infinity::hsi(mac, hue, 100, 100),
            TestDriver::Home => home::hsi(1000, hue, 100),
            TestDriver::Auto | TestDriver::Classic => classic::hsi(hue, 100, 100),
        }
    }
}

/// The values behind the id and brightness of a preset:
/// `(cct, gm, hue, sat, speed, extra, val2)`.
pub open spec fn preset(id: u8) -> (u8, i8, u16, u8, u8, u8, u16) {
    if id == 1 {
        (56, 0, 0, 0, 5, 0, 0)
    } else if id == 9 {
        (0, 0, 240, 100, 6, 0, 0)
    } else if id == 10 {
        (0, 0, 0, 0, 7, 2, 0)
    } else if id == 11 {
        (32, 0, 0, 0, 4, 0, 0)
    } else if id == 12 {
        (0, 0, 0, 100, 5, 0, 0)
    } else {
        (56, 0, 0, 100, 5, 0, 0)
    }
}

/// The effect data of a preset.
pub open spec fn preset_data(id: u8, bri: u8) -> Seq<u8> {
    let p = preset(id);
    effect_data(id, bri, p.0, p.1, p.2, p.3, p.4, p.5, p.6)
}

/// Hand-tuned values for the effects that are worth it, general ones for the rest.
fn fx_preset_params(id: u8) -> (r: (u8, i8, u16, u8, u8, u8, u16))
    ensures
        r == preset(id),
{
    match id {
        // Lightning.
        1 => (56, 0, 0, 0, 5, 0, 0),
        // A blue hue pulse.
        9 => (0, 0, 240, 100, 6, 0, 0),
        // Cop car.
        10 => (0, 0, 0, 0, 7, 2, 0),
        // Candlelight.
        11 => (32, 0, 0, 0, 4, 0, 0),
        // Hue loop.
        12 => (0, 0, 0, 100, 5, 0, 0),
        _ => (56, 0, 0, 100, 5, 0, 0),
    }
}

/// A preset as the MAC-embedded frame.
pub fn fx_preset(mac: [u8; 6], id: u8, bri: u8) -> (f: Vec<u8>)
    ensures
        f@ == fx_frame(mac@, preset_data(id, bri)),
{
    let (cct, gm, hue, sat, speed, extra, val2) = fx_preset_params(id);
    infinity::fx(mac, id, bri, cct, gm, hue, sat, speed, extra, val2)
}

/// A preset as the direct frame.
pub fn fx_preset_direct(id: u8, bri: u8) -> (f: Vec<u8>)
    ensures
        f@ == fx_direct_frame(preset_data(id, bri)),
{
    let (cct, gm, hue, sat, speed, extra, val2) = fx_preset_params(id);
    infinity::fx_direct(id, bri, cct, gm, hue, sat, speed, extra, val2)
}

/// A preset carries the same effect data in both frame forms.
pub proof fn law_preset_forms_agree(mac: Seq<u8>, id: u8, bri: u8)
    requires
        mac.len() == 6,
    ensures
        ({
            let m = fx_frame(mac, preset_data(id, bri));
            let d = fx_direct_frame(preset_data(id, bri));
            m.subrange(10, m.len() - 1) == d.subrange(3, d.len() - 1)
        }),
{
    law_fx_forms_carry_the_same_payload(mac, preset_data(id, bri));
}

/// A block of a hue, fully saturated.
pub open spec fn full(hue: u16) -> Block {
    Block::Hsi { hue, sat: 100 }
}

/// The white that lies behind the moving colours.
pub open spec fn backdrop() -> Block {
    Block::Cct { cct: 55, gm: 0 }
}

/// The parameters of a pixel effect's probe, its wire id first.
pub open spec fn pixel_effect_params(id: u8) -> Seq<u8> {
    if id == 1 {
        seq![1u8, 0, 50, 2, 40, 1, 1]
    } else if id == 2 {
        seq![2u8, 0, 50, 40, 1, 0, 1]
    } else if id == 3 || id == 4 || id == 5 {
        seq![id, 0u8, 50, 50, 0, 40, 1, 0, 1]
    } else if id == 6 {
        seq![6u8, 0, 50, 40, 1, 1]
    } else if id == 7 {
        seq![7u8, 0, 50, 100, 50, 20, 0, 1]
    } else if id == 8 {
        seq![10u8, 0, 50, 2, 40, 1, 0, 1]
    } else if id == 9 {
        seq![11u8, 0, 50, 3, 40, 1, 0, 1]
    } else {
        seq![12u8, 0, 50, 3, 40, 1, 1]
    }
}

/// The palette of a pixel effect's probe.
pub open spec fn pixel_effect_palette(id: u8) -> Seq<Block> {
    if id == 1 || id == 2 || id == 6 || id == 8 {
        seq![full(0), full(240)]
    } else if id == 3 {
        seq![backdrop(), full(0)]
    } else if id == 4 {
        seq![backdrop(), full(0), full(60)]
    } else if id == 5 {
        seq![backdrop(), full(0), full(60), full(120)]
    } else if id == 7 {
        seq![Block::Off, full(30)]
    } else {
        seq![full(0), full(60), full(120)]
    }
}

/// The name of a pixel effect.
pub open spec fn pixel_effect_name(id: u8) -> Seq<char> {
    if id == 1 {
        "ColorReplacement"@
    } else if id == 2 {
        "ColorAlternate"@
    } else if id == 3 {
        "SingleColorMoving"@
    } else if id == 4 {
        "TwoColorMoving"@
    } else if id == 5 {
        "ThreeColorMoving"@
    } else if id == 6 {
        "Colorful"@
    } else if id == 7 {
        "Fire"@
    } else if id == 8 {
        "ColorGradient"@
    } else if id == 9 {
        "Trail"@
    } else {
        "ColorShift"@
    }
}

/// The frames of a pixel effect's probe: its parameters, then its palette, which goes
/// under the same wire id.
pub open spec fn pixel_effect_frames(mac: Seq<u8>, id: u8) -> Seq<Seq<u8>> {
    let params = pixel_effect_params(id);
    seq![
        pixel_frame(mac, params),
        palette_frame(mac, params[0], 1, pixel_effect_palette(id)),
    ]
}

fn hue_block(hue: u16) -> (r: Block)
    ensures
        r == full(hue),
{
    Block::Hsi { hue, sat: 100 }
}

fn backdrop_block() -> (r: Block)
    ensures
        r == backdrop(),
{
    Block::Cct { cct: 55, gm: 0 }
}

/// The frames of one pixel effect (1 to 10) with its default values, and its name.
/// The last three effects have wire ids of their own.
pub fn pixel_effect_test(mac: [u8; 6], id: u8) -> (r: (Vec<Vec<u8>>, &'static str))
    ensures
        frames_of(r.0@) == pixel_effect_frames(mac@, id),
        r.1@ == pixel_effect_name(id),
{
    let run: u8 = RUN_PLAY;
    let (params, name): (Vec<u8>, &'static str) = match id {
        1 => (vec![1, 0, 50, 2, 40, 1, run], "ColorReplacement"),
        2 => (vec![2, 0, 50, 40, 1, 0, run], "ColorAlternate"),
        3 => (vec![3, 0, 50, 50, 0, 40, 1, 0, run], "SingleColorMoving"),
        4 => (vec![4, 0, 50, 50, 0, 40, 1, 0, run], "TwoColorMoving"),
        5 => (vec![5, 0, 50, 50, 0, 40, 1, 0, run], "ThreeColorMoving"),
        6 => (vec![6, 0, 50, 40, 1, run], "Colorful"),
        7 => (vec![7, 0, 50, 100, 50, 20, 0, run], "Fire"),
        8 => (vec![10, 0, 50, 2, 40, 1, 0, run], "ColorGradient"),
        9 => (vec![11, 0, 50, 3, 40, 1, 0, run], "Trail"),
        _ => (vec![12, 0, 50, 3, 40, 1, run], "ColorShift"),
    };
    assert(params@ =~= pixel_effect_params(id));
    let blocks: Vec<Block> = match id {
        1 | 2 | 6 | 8 => vec![hue_block(0), hue_block(240)],
        3 => vec![backdrop_block(), hue_block(0)],
        4 => vec![backdrop_block(), hue_block(0), hue_block(60)],
        5 => vec![backdrop_block(), hue_block(0), hue_block(60), hue_block(120)],
        7 => vec![Block::Off, hue_block(30)],
        _ => vec![hue_block(0), hue_block(60), hue_block(120)],
    };
    assert(blocks@ =~= pixel_effect_palette(id));
    let wire: u8 = params[0];
    let first = raw_frame(mac, &params);
    let second = crate::protocol::pixel::palette(mac, wire, 1, &blocks);
    let frames: Vec<Vec<u8>> = vec![first, second];
    assert(frames_of(frames@) =~= pixel_effect_frames(mac@, id));
    (frames, name)
}

/// One write of a probe, and how long to wait after it.
#[derive(Debug, Clone)]
pub struct Step {
    pub frame: Vec<u8>,
    /// Whether the frame may have to go out in fragments.
    pub chunked: bool,
    pub pause_ms: u64,
}

/// One write of a probe, and how long to wait after it.
pub struct StepModel {
    pub frame: Seq<u8>,
    pub chunked: bool,
    pub pause_ms: u64,
}

/// The models of steps.
pub open spec fn steps_of(steps: Seq<Step>) -> Seq<StepModel> {
    Seq::new(
        steps.len(),
        |i: int|
            StepModel {
                frame: steps[i].frame@,
                chunked: steps[i].chunked,
                pause_ms: steps[i].pause_ms,
            },
    )
}

/// A frame in one write.
pub open spec fn once(frame: Seq<u8>, pause_ms: u64) -> StepModel {
    StepModel { frame, chunked: false, pause_ms }
}

pub(crate) fn write_once(steps: &mut Vec<Step>, frame: Vec<u8>, pause_ms: u64)
    ensures
        steps_of(final(steps)@) == steps_of(old(steps)@).push(once(frame@, pause_ms)),
{
    steps.push(Step { frame, chunked: false, pause_ms });
    assert(steps_of(steps@) =~= steps_of(old(steps)@).push(once(frame@, pause_ms)));
}

/// How long each half of a blink lasts.
pub const BLINK_STEP_MS: u64 = 450;

/// Three blinks: off and on, three times.
pub open spec fn blinks(off: Seq<u8>, on: Seq<u8>) -> Seq<StepModel> {
    seq![
        once(off, BLINK_STEP_MS),
        once(on, BLINK_STEP_MS),
        once(off, BLINK_STEP_MS),
        once(on, BLINK_STEP_MS),
        once(off, BLINK_STEP_MS),
        once(on, BLINK_STEP_MS),
    ]
}

/// Blink a light three times so that someone can see which one it is.
pub fn blink(off: &[u8], on: &[u8]) -> (r: Vec<Step>)
    ensures
        steps_of(r@) == blinks(off@, on@),
{
    let mut steps: Vec<Step> = Vec::new();
    let mut n: usize = 0;
    while n < 3
        invariant
            n <= 3,
            steps_of(steps@) == blinks(off@, on@).take(2 * n),
        decreases 3 - n,
    {
        write_once(&mut steps, vstd::slice::slice_to_vec(off), BLINK_STEP_MS);
        write_once(&mut steps, vstd::slice::slice_to_vec(on), BLINK_STEP_MS);
        n += 1;
        assert(steps_of(steps@) =~= blinks(off@, on@).take(2 * n));
    }
    assert(blinks(off@, on@).take(6) =~= blinks(off@, on@));
    steps
}

/// Red, green and blue, then a dim warm white.
pub open spec fn color_steps(drv: TestDriver, mac: Seq<u8>) -> Seq<StepModel> {
    seq![
        once(hsi_bytes(drv, mac, 0), 1200),
        once(hsi_bytes(drv, mac, 120), 1200),
        once(hsi_bytes(drv, mac, 240), 1200),
        once(cct_bytes(drv, mac, 12, 27), 0),
    ]
}

/// Show red, green and blue: a bi-colour light ignores them.
pub fn probe_colors(drv: TestDriver, mac: [u8; 6]) -> (r: Vec<Step>)
    ensures
        steps_of(r@) == color_steps(drv, mac@),
{
    let mut steps: Vec<Step> = Vec::new();
    assert(steps_of(steps@) =~= Seq::empty());
    write_once(&mut steps, drv.hsi(mac, 0), 1200);
    write_once(&mut steps, drv.hsi(mac, 120), 1200);
    write_once(&mut steps, drv.hsi(mac, 240), 1200);
    write_once(&mut steps, drv.cct(mac, 12, 27), 0);
    steps
}

/// A CIE coordinate at full brightness, MAC-addressed.
pub open spec fn xy_bytes(mac: Seq<u8>, x: int, y: int) -> Seq<u8> {
    sealed(
        seq![0x78u8, 0xB7, 0x0C] + mac + seq![100u8, lo(x), hi(x), lo(y), hi(y), 0x00],
    )
}

/// Three CIE coordinates, three effects, a power cycle that ends the last one, then a
/// dim warm white.
pub open spec fn mode_steps(drv: TestDriver, mac: Seq<u8>) -> Seq<StepModel> {
    seq![
        once(xy_bytes(mac, 3127, 3290), 1200),
        once(xy_bytes(mac, 6400, 3300), 1200),
        once(xy_bytes(mac, 3000, 6000), 1200),
        once(fx_frame(mac, preset_data(1, 100)), 2500),
        once(fx_frame(mac, preset_data(9, 100)), 2500),
        once(fx_frame(mac, preset_data(10, 100)), 2500),
        once(power_bytes(drv, mac, false), 400),
        once(power_bytes(drv, mac, true), 400),
        once(cct_bytes(drv, mac, 12, 27), 0),
    ]
}

/// Show the advanced modes.
pub fn probe_modes(drv: TestDriver, mac: [u8; 6]) -> (r: Vec<Step>)
    ensures
        steps_of(r@) == mode_steps(drv, mac@),
{
    let mut steps: Vec<Step> = Vec::new();
    assert(steps_of(steps@) =~= Seq::empty());
    write_once(&mut steps, classic::xy_mac(mac, 100, 3127, 3290), 1200);
    write_once(&mut steps, classic::xy_mac(mac, 100, 6400, 3300), 1200);
    write_once(&mut steps, classic::xy_mac(mac, 100, 3000, 6000), 1200);
    write_once(&mut steps, fx_preset(mac, 1, 100), 2500);
    write_once(&mut steps, fx_preset(mac, 9, 100), 2500);
    write_once(&mut steps, fx_preset(mac, 10, 100), 2500);
    write_once(&mut steps, drv.power(mac, false), 400);
    write_once(&mut steps, drv.power(mac, true), 400);
    write_once(&mut steps, drv.cct(mac, 12, 27), 0);
    steps
}

/// The frames of a palette, 80 ms apart, with a longer wait after the last one.
pub open spec fn paced(frames: Seq<Seq<u8>>, hold_ms: u64) -> Seq<StepModel> {
    Seq::new(
        frames.len(),
        |i: int|
            StepModel {
                frame: frames[i],
                chunked: true,
                pause_ms: if i == frames.len() - 1 {
                    (80 + hold_ms) as u64
                } else {
                    80
                },
            },
    )
}

pub(crate) fn write_paced(steps: &mut Vec<Step>, frames: &[Vec<u8>], hold_ms: u64)
    requires
        hold_ms <= 10_000,
    ensures
        steps_of(final(steps)@) == steps_of(old(steps)@) + paced(frames_of(frames@), hold_ms),
{
    let ghost all = paced(frames_of(frames@), hold_ms);
    let mut i: usize = 0;
    assert(steps_of(steps@) =~= steps_of(old(steps)@) + all.take(0));
    while i < frames.len()
        invariant
            i <= frames@.len(),
            hold_ms <= 10_000,
            all == paced(frames_of(frames@), hold_ms),
            steps_of(steps@) == steps_of(old(steps)@) + all.take(i as int),
        decreases frames@.len() - i,
    {
        let ghost before = steps@;
        steps.push(
            Step {
                frame: vstd::slice::slice_to_vec(&frames[i]),
                chunked: true,
                pause_ms: if i == frames.len() - 1 {
                    80 + hold_ms
                } else {
                    80
                },
            },
        );
        assert(steps_of(steps@) =~= steps_of(before).push(all[i as int]));
        i += 1;
        assert(steps_of(steps@) =~= steps_of(old(steps)@) + all.take(i as int));
    }
    assert(all.take(i as int) =~= all);
}

/// A white beat, then one pixel effect.
pub open spec fn demo(drv: TestDriver, mac: Seq<u8>, palette: Seq<Block>, effect: u8) -> Seq<
    StepModel,
> {
    seq![once(cct_bytes(drv, mac, 50, 56), 700)] + paced(
        paint_frames(mac, palette, 100, effect, 40, 1),
        2800,
    )
}

fn write_demo(steps: &mut Vec<Step>, drv: TestDriver, mac: [u8; 6], palette: &[Block], effect: u8)
    ensures
        steps_of(final(steps)@) == steps_of(old(steps)@) + demo(drv, mac@, palette@, effect),
{
    write_once(steps, drv.cct(mac, 50, 56), 700);
    let frames = paint(mac, palette, 100, effect, 40, 1);
    write_paced(steps, &frames, 2800);
    assert(steps_of(steps@) =~= steps_of(old(steps)@) + demo(drv, mac@, palette@, effect));
}

/// A dim warm white, three times.
pub open spec fn restored(mac: Seq<u8>) -> Seq<StepModel> {
    let white = once(cct_bytes(TestDriver::Classic, mac, 12, 27), 400);
    seq![white, white, white]
}

/// Four pixel effects, a white beat before each, then a dim warm white, three times.
pub open spec fn pixel_steps(drv: TestDriver, mac: Seq<u8>) -> Seq<StepModel> {
    demo(drv, mac, seq![full(0), full(120), full(240), full(55)], 1)
        + demo(drv, mac, seq![Block::Off, full(0), full(240)], 4)
        + demo(drv, mac, seq![Block::Off, full(0), full(120), full(240)], 5)
        + demo(drv, mac, seq![Block::Off, full(25)], 7)
        + restored(mac)
}

/// Show the pixel effects. The white at the end is the one that ends a running effect
/// on its own, whatever the family.
pub fn probe_pixel(drv: TestDriver, mac: [u8; 6]) -> (r: Vec<Step>)
    ensures
        steps_of(r@) == pixel_steps(drv, mac@),
{
    let bands: Vec<Block> = vec![hue_block(0), hue_block(120), hue_block(240), hue_block(55)];
    let two: Vec<Block> = vec![Block::Off, hue_block(0), hue_block(240)];
    let three: Vec<Block> = vec![Block::Off, hue_block(0), hue_block(120), hue_block(240)];
    let fire: Vec<Block> = vec![Block::Off, hue_block(25)];
    let mut steps: Vec<Step> = Vec::new();
    assert(bands@ =~= seq![full(0), full(120), full(240), full(55)]);
    assert(two@ =~= seq![Block::Off, full(0), full(240)]);
    assert(three@ =~= seq![Block::Off, full(0), full(120), full(240)]);
    assert(fire@ =~= seq![Block::Off, full(25)]);
    write_demo(&mut steps, drv, mac, &bands, 1);
    assert(steps_of(steps@) =~= demo(drv, mac@, bands@, 1));
    write_demo(&mut steps, drv, mac, &two, 4);
    write_demo(&mut steps, drv, mac, &three, 5);
    write_demo(&mut steps, drv, mac, &fire, 7);
    let ghost shown = steps_of(steps@);
    write_once(&mut steps, classic::cct4(12, 27, 0), 400);
    write_once(&mut steps, classic::cct4(12, 27, 0), 400);
    write_once(&mut steps, classic::cct4(12, 27, 0), 400);
    assert(steps_of(steps@) =~= shown + restored(mac@));
    steps
}

/// The status queries: version, battery, temperature and state, then time for late
/// replies.
pub open spec fn status_steps(mac: Seq<u8>) -> Seq<StepModel> {
    seq![
        once(queries::query_frame(0x9E, mac, seq![]), 350),
        once(queries::query_frame(0x95, mac, seq![]), 350),
        once(queries::query_frame(0xB3, mac, seq![]), 350),
        once(queries::query_frame(0x8E, mac, seq![0x85u8]), 2350),
    ]
}

/// Read the status. Nothing that the light shows is changed.
pub fn test_status(mac: [u8; 6]) -> (r: Vec<Step>)
    ensures
        steps_of(r@) == status_steps(mac@),
{
    let mut steps: Vec<Step> = Vec::new();
    assert(steps_of(steps@) =~= Seq::empty());
    write_once(&mut steps, queries::version(mac), 350);
    write_once(&mut steps, queries::battery(mac), 350);
    write_once(&mut steps, queries::temperature(mac), 350);
    write_once(&mut steps, queries::state(mac), 2350);
    steps
}

/// Nothing, or the steps of a probe that was asked for.
pub open spec fn wanted(asked: bool, steps: Seq<StepModel>) -> Seq<StepModel> {
    if asked {
        steps
    } else {
        Seq::empty()
    }
}

/// A whole `test` run that shows something: blinks, a white, then the probes asked
/// for, in this order: colours, modes, pixels.
pub open spec fn test_steps(drv: TestDriver, mac: Seq<u8>, probes: TestProbes) -> Seq<StepModel> {
    blinks(power_bytes(drv, mac, false), power_bytes(drv, mac, true)).push(
        once(cct_bytes(drv, mac, 50, 56), 0),
    ) + wanted(probes.colors, color_steps(drv, mac)) + wanted(probes.modes, mode_steps(drv, mac))
        + wanted(probes.pixel, pixel_steps(drv, mac))
}

fn append_steps(steps: &mut Vec<Step>, more: Vec<Step>)
    ensures
        steps_of(final(steps)@) == steps_of(old(steps)@) + steps_of(more@),
{
    let ghost added = steps_of(more@);
    let mut rest = more;
    steps.append(&mut rest);
    assert(steps_of(steps@) =~= steps_of(old(steps)@) + added);
}

/// The writes of a `test` run: proof that the light can be blinked, set, and made to
/// show what it is asked for.
pub fn test(drv: TestDriver, mac: [u8; 6], probes: TestProbes) -> (r: Vec<Step>)
    ensures
        steps_of(r@) == test_steps(drv, mac@, probes),
{
    let off = drv.power(mac, false);
    let on = drv.power(mac, true);
    let mut steps = blink(&off, &on);
    write_once(&mut steps, drv.cct(mac, 50, 56), 0);
    let ghost start = steps_of(steps@);
    assert(start + Seq::<StepModel>::empty() =~= start);
    if probes.colors {
        append_steps(&mut steps, probe_colors(drv, mac));
    }
    let ghost coloured = steps_of(steps@);
    assert(coloured + Seq::<StepModel>::empty() =~= coloured);
    if probes.modes {
        append_steps(&mut steps, probe_modes(drv, mac));
    }
    let ghost moded = steps_of(steps@);
    assert(moded + Seq::<StepModel>::empty() =~= moded);
    if probes.pixel {
        append_steps(&mut steps, probe_pixel(drv, mac));
    }
    steps
}

/// Whether a run has to say that `auto` meant classic frames: only one that sent
/// frames of a family does.
pub fn hint_about_auto(drv: TestDriver, status: bool, set: bool) -> (r: bool)
    ensures
        r == (drv == TestDriver::Auto && !status && !set),
{
    match drv {
        TestDriver::Auto => !status && !set,
        _ => false,
    }
}

/// Every probe that shows something ends on a dim warm white, so that no light is left
/// in an effect.
pub proof fn law_probes_end_on_warm_white(drv: TestDriver, mac: Seq<u8>)
    ensures
        color_steps(drv, mac).last().frame == cct_bytes(drv, mac, 12, 27),
        mode_steps(drv, mac).last().frame == cct_bytes(drv, mac, 12, 27),
        pixel_steps(drv, mac).last().frame == cct_bytes(TestDriver::Classic, mac, 12, 27),
{
}

} // verus!
