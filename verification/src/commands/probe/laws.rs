//! What holds of the writes of a probe.

use vstd::prelude::*;
use vstd::string::*;
use super::{
    blinks, cct_bytes, color_steps, demo, driver_called, full, hsi_bytes, mode_steps, paced,
    pixel_effect_frames, pixel_effect_name, pixel_effect_palette, pixel_effect_params, pixel_steps,
    power_bytes, preset_data, restored, status_steps, steps_of, test_steps, xy_bytes, Step,
    StepModel, TestDriver, TestProbes,
};
use crate::driver::{hue_bytes, Driver};
use crate::protocol::laws::{
    holds_mac, law_colour_replacement_sends_every_block, law_fire_sends_background_and_colour,
    law_moving_effects_send_their_colours, low_first, palette_of,
};
use crate::protocol::pixel::{paint_frames, Block};
use crate::protocol::{hi, lo, min_of, LightState, Mode};

verus! {

broadcast use vstd::string::group_string_axioms;

/// The driver that speaks for a family.
pub open spec fn speaker(drv: TestDriver, mac: [u8; 6]) -> Driver {
    match drv {
        TestDriver::Infinity => Driver::Infinity { mac },
        TestDriver::Home => Driver::Home,
        _ => Driver::Classic { supports_gm: true, mac, mac_frames: false },
    }
}

/// A family is chosen by its own name alone.
pub proof fn law_family_names(s: Seq<char>)
    ensures
        driver_called(s) == Some(TestDriver::Auto) <==> s == "auto"@,
        driver_called(s) == Some(TestDriver::Classic) <==> s == "classic"@,
        driver_called(s) == Some(TestDriver::Infinity) <==> s == "infinity"@,
        driver_called(s) == Some(TestDriver::Home) <==> s == "home"@,
{
    reveal_strlit("auto");
    reveal_strlit("classic");
    reveal_strlit("infinity");
    reveal_strlit("home");
    assert("auto"@.len() == 4 && "home"@.len() == 4 && "classic"@.len() == 7 && "infinity"@.len()
        == 8);
    assert("auto"@[0] == 'a' && "home"@[0] == 'h');
}

/// What a probe sends is what the bridge sends: the frames of a family are those of its
/// driver, for power, for an untinted white and for a full colour.
pub proof fn law_probes_speak_like_the_driver(
    drv: TestDriver,
    mac: [u8; 6],
    on: bool,
    brr: u8,
    temp: u8,
    hue: u16,
    st: LightState,
)
    requires
        st.gm == 0,
    ensures
        power_bytes(drv, mac@, on) == speaker(drv, mac).power_frame(on),
        seq![cct_bytes(drv, mac@, brr, temp)] == speaker(drv, mac).frames(
            LightState { mode: Mode::Cct, brightness: brr, cct: temp, ..st },
        ),
        seq![hsi_bytes(drv, mac@, hue)] == speaker(drv, mac).frames(
            LightState { mode: Mode::Hsi, brightness: 100, sat: 100, hue, ..st },
        ),
{
    let d = speaker(drv, mac);
    let white = LightState { mode: Mode::Cct, brightness: brr, cct: temp, ..st };
    let colour = LightState { mode: Mode::Hsi, brightness: 100, sat: 100, hue, ..st };
    assert(cct_bytes(drv, mac@, brr, temp) =~= d.frames(white)[0]);
    let h = min_of(hue as int, 360);
    assert(seq![0x78u8, 0x8F, 0x0C] + mac@ + seq![0x86u8] + hue_bytes(colour) + seq![100u8, 0x00u8]
        =~= seq![0x78u8, 0x8F, 0x0C] + mac@ + seq![0x86u8, lo(h), hi(h), 100, 100, 0x00]);
    assert(seq![0x78u8, 0x86, 0x04] + hue_bytes(colour) + seq![100u8] =~= seq![
        0x78u8,
        0x86,
        0x04,
        lo(h),
        hi(h),
        100,
        100,
    ]);
    assert(hsi_bytes(drv, mac@, hue) =~= d.frames(colour)[0]);
}

/// A CIE coordinate on the wire, at full brightness.
pub proof fn law_coordinates_on_the_wire(mac: Seq<u8>, x: u16, y: u16)
    requires
        mac.len() == 6,
    ensures
        ({
            let f = xy_bytes(mac, x as int, y as int);
            &&& f.len() == 16 && f[0] == 0x78 && f[1] == 0xB7 && f[2] == 12
            &&& holds_mac(f, 3, mac)
            &&& f[9] == 100
            &&& low_first(f, 10) == x
            &&& low_first(f, 12) == y
            &&& f[14] == 0
        }),
{
}

/// A preset names its own effect and has the brightness asked for; its other values are
/// hand-tuned for four effects and white of 5600 K at speed 5, fully saturated, for the
/// rest.
pub proof fn law_presets(id: u8, bri: u8)
    requires
        1 <= id <= 18,
    ensures
        ({
            let d = preset_data(id, bri);
            &&& d[0] == id
            &&& id == 5 || id == 11 || id == 15 ==> d[1] == 0 && d[2] == bri
            &&& id == 14 ==> d[1] == 0 && d[2] == 0 && d[3] == bri
            &&& id != 5 && id != 11 && id != 14 && id != 15 ==> d[1] == bri
            &&& id == 1 ==> d[2] == 56 && d[3] == 5
            &&& id == 2 || id == 3 || id == 6 || id == 8 || id == 4 ==> d[2] == 56 && d[3] == 50
                && d[4] == 5
            &&& id == 5 || id == 15 ==> d[3] == 56 && d[4] == 50 && d[5] == 5
            &&& id == 7 ==> low_first(d, 2) == 0 && d[4] == 100 && d[5] == 5
            &&& id == 9 ==> low_first(d, 2) == 240 && d[4] == 100 && d[5] == 6
            &&& id == 10 ==> d[2] == 2 && d[3] == 7
            &&& id == 11 ==> d[3] == 32 && d[4] == 50 && d[5] == 4
            &&& id == 12 ==> low_first(d, 2) == 0 && low_first(d, 4) == 0 && d[6] == 5
            &&& id == 13 ==> d[2] == 56 && d[4] == 5
            &&& id == 14 ==> low_first(d, 4) == 0 && d[6] == 56 && d[7] == 5
            &&& id == 16 || id == 17 ==> d[2] == 0 && d[3] == 5
        }),
{
}

/// A pixel effect is probed with its parameters under its wire id, and its palette under
/// the same one: the first seven effects have their own number, the last three 10 to 12.
/// Each runs, at brightness 50.
pub proof fn law_pixel_probes(mac: Seq<u8>, id: u8)
    requires
        mac.len() == 6,
        1 <= id <= 10,
    ensures
        ({
            let fs = pixel_effect_frames(mac, id);
            let p = pixel_effect_params(id);
            let wire = if id <= 7 {
                id as int
            } else {
                id + 2
            };
            &&& fs.len() == 2
            &&& fs[0][9] == wire && fs[0][10] == 0
            &&& fs[1][9] == wire && fs[1][10] == 1
            &&& p[2] == 50
            &&& p.last() == 1
            &&& id == 7 ==> p[3] == 100
        }),
{
}

/// The palettes of the pixel probes: two colours red and blue; the moving ones a white
/// ground and red, yellow and green as far as they go; fire orange on dark; three colours
/// red, yellow and green.
pub proof fn law_pixel_probe_palettes(id: u8)
    requires
        1 <= id <= 10,
    ensures
        ({
            let p = pixel_effect_palette(id);
            &&& id == 1 || id == 2 || id == 6 || id == 8 ==> {
                &&& p.len() == 2
                &&& p[0] == (Block::Hsi { hue: 0, sat: 100 })
                &&& p[1] == (Block::Hsi { hue: 240, sat: 100 })
            }
            &&& id == 3 || id == 4 || id == 5 ==> {
                &&& p.len() == id - 1
                &&& p[0] == (Block::Cct { cct: 55, gm: 0 })
                &&& forall|i: int|
                    1 <= i < p.len() ==> #[trigger] p[i] == (Block::Hsi {
                        hue: (60 * (i - 1)) as u16,
                        sat: 100,
                    })
            }
            &&& id == 7 ==> {
                &&& p.len() == 2
                &&& p[0] == Block::Off
                &&& p[1] == (Block::Hsi { hue: 30, sat: 100 })
            }
            &&& id == 9 || id == 10 ==> {
                &&& p.len() == 3
                &&& forall|i: int|
                    0 <= i < 3 ==> #[trigger] p[i] == (Block::Hsi { hue: (60 * i) as u16, sat: 100 })
            }
        }),
{
}

/// Blinking alternates off and on, three times, 450 ms each.
pub proof fn law_blinking(off: Seq<u8>, on: Seq<u8>, i: int)
    requires
        0 <= i < 6,
    ensures
        blinks(off, on).len() == 6,
        blinks(off, on)[i].frame == if i % 2 == 0 {
            off
        } else {
            on
        },
        blinks(off, on)[i].pause_ms == 450,
        !blinks(off, on)[i].chunked,
{
}

/// The colour probe shows hues 120 apart from red on, for 1.2 s each, and ends on a dim
/// warm white.
pub proof fn law_colour_probe(drv: TestDriver, mac: Seq<u8>, i: int)
    requires
        0 <= i < 3,
    ensures
        color_steps(drv, mac).len() == 4,
        color_steps(drv, mac)[i].frame == hsi_bytes(drv, mac, (120 * i) as u16),
        color_steps(drv, mac)[i].pause_ms == 1200,
        color_steps(drv, mac)[3].frame == cct_bytes(drv, mac, 12, 27),
{
}

/// The mode probe shows three coordinates, three presets, ends the last one by switching
/// off and on, and leaves a dim warm white.
pub proof fn law_mode_probe(drv: TestDriver, mac: Seq<u8>)
    requires
        mac.len() == 6,
    ensures
        ({
            let s = mode_steps(drv, mac);
            &&& s.len() == 9
            &&& low_first(s[0].frame, 10) == 3127 && low_first(s[0].frame, 12) == 3290
            &&& low_first(s[1].frame, 10) == 6400 && low_first(s[1].frame, 12) == 3300
            &&& low_first(s[2].frame, 10) == 3000 && low_first(s[2].frame, 12) == 6000
            &&& s[3].frame[10] == 1 && s[4].frame[10] == 9 && s[5].frame[10] == 10
            &&& s[6].frame == power_bytes(drv, mac, false)
            &&& s[7].frame == power_bytes(drv, mac, true)
            &&& s[8].frame == cct_bytes(drv, mac, 12, 27)
            &&& s[0].pause_ms == 1200 && s[1].pause_ms == 1200 && s[2].pause_ms == 1200
            &&& s[3].pause_ms == 2500 && s[4].pause_ms == 2500 && s[5].pause_ms == 2500
            &&& s[6].pause_ms == 400 && s[7].pause_ms == 400
        }),
{
    law_coordinates_on_the_wire(mac, 3127, 3290);
    law_coordinates_on_the_wire(mac, 6400, 3300);
    law_coordinates_on_the_wire(mac, 3000, 6000);
    law_presets(1, 100);
    law_presets(9, 100);
    law_presets(10, 100);
}

/// Frames that are paced go out in order and whole, 80 ms apart, with the hold behind the
/// last one.
pub proof fn law_pacing(frames: Seq<Seq<u8>>, hold_ms: u64, i: int)
    requires
        0 <= i < frames.len(),
        hold_ms <= 10_000,
    ensures
        paced(frames, hold_ms).len() == frames.len(),
        paced(frames, hold_ms)[i].frame == frames[i],
        paced(frames, hold_ms)[i].chunked,
        i < frames.len() - 1 ==> paced(frames, hold_ms)[i].pause_ms == 80,
        i == frames.len() - 1 ==> paced(frames, hold_ms)[i].pause_ms == 80 + hold_ms,
{
}

/// The pixel probe shows four effects, each behind a white beat, and ends on a dim warm
/// white, sent three times.
pub proof fn law_pixel_probe(drv: TestDriver, mac: Seq<u8>, palette: Seq<Block>, effect: u8)
    ensures
        ({
            let d = demo(drv, mac, palette, effect);
            &&& d.len() == 1 + paint_frames(mac, palette, 100, effect, 40, 1).len()
            &&& d[0].frame == cct_bytes(drv, mac, 50, 56)
            &&& d[0].pause_ms == 700
            &&& d[1].frame == paint_frames(mac, palette, 100, effect, 40, 1)[0]
            &&& d.last().pause_ms == 2880
        }),
        ({
            let s = pixel_steps(drv, mac);
            &&& s.len() == 15
            &&& s[1].frame == paint_frames(
                mac,
                seq![full(0), full(120), full(240), full(55)],
                100,
                1,
                40,
                1,
            )[0]
            &&& s[4].frame == paint_frames(
                mac,
                seq![Block::Off, full(0), full(240)],
                100,
                4,
                40,
                1,
            )[0]
            &&& s[7].frame == paint_frames(
                mac,
                seq![Block::Off, full(0), full(120), full(240)],
                100,
                5,
                40,
                1,
            )[0]
            &&& s[10].frame == paint_frames(mac, seq![Block::Off, full(25)], 100, 7, 40, 1)[0]
            &&& s[12].frame == cct_bytes(TestDriver::Classic, mac, 12, 27)
            &&& s[13].frame == s[12].frame && s[14].frame == s[12].frame
        }),
        full(25) == (Block::Hsi { hue: 25, sat: 100 }),
{
    let one = seq![full(0), full(120), full(240), full(55)];
    assert(one.take(4) =~= one);
    assert(paint_frames(mac, one, 100, 1, 40, 1).len() == 2);
    let two = seq![Block::Off, full(0), full(240)];
    let three = seq![Block::Off, full(0), full(120), full(240)];
    let fire = seq![Block::Off, full(25)];
    let a = demo(drv, mac, one, 1);
    let b = demo(drv, mac, two, 4);
    let c = demo(drv, mac, three, 5);
    let d = demo(drv, mac, fire, 7);
    assert(a.len() == 3 && b.len() == 3 && c.len() == 3 && d.len() == 3);
    let s = pixel_steps(drv, mac);
    assert(s[1] == a[1] && s[4] == b[1] && s[7] == c[1] && s[10] == d[1]);
    assert(s[12] == restored(mac)[0] && s[13] == restored(mac)[1] && s[14] == restored(mac)[2]);
}

/// The status probe asks for the version, the battery, the temperature and the state, in
/// this order, 350 ms apart, and then waits two seconds more.
pub proof fn law_status_probe(mac: Seq<u8>)
    requires
        mac.len() == 6,
    ensures
        ({
            let s = status_steps(mac);
            &&& s.len() == 4
            &&& s[0].frame[1] == 0x9E && s[1].frame[1] == 0x95 && s[2].frame[1] == 0xB3
                && s[3].frame[1] == 0x8E
            &&& s[3].frame[9] == 0x85
            &&& forall|i: int| 0 <= i < 4 ==> holds_mac((#[trigger] s[i]).frame, 3, mac)
            &&& s[0].pause_ms == 350 && s[1].pause_ms == 350 && s[2].pause_ms == 350
                && s[3].pause_ms == 2350
        }),
{
    let none = Seq::<u8>::empty();
    crate::protocol::laws::law_query_frames(0x9E, mac, none, 0);
    crate::protocol::laws::law_query_frames(0x95, mac, none, 0);
    crate::protocol::laws::law_query_frames(0xB3, mac, none, 0);
    crate::protocol::laws::law_query_frames(0x8E, mac, seq![0x85u8], 0);
}

/// A run blinks, shows a white, and then does the probes that were asked for, colours
/// first, then modes, then pixels, and no others.
pub proof fn law_test_runs(drv: TestDriver, mac: Seq<u8>, probes: TestProbes)
    ensures
        ({
            let s = test_steps(drv, mac, probes);
            let start = test_steps(
                drv,
                mac,
                TestProbes { colors: false, modes: false, pixel: false, ..probes },
            );
            let colors = if probes.colors {
                color_steps(drv, mac)
            } else {
                Seq::<StepModel>::empty()
            };
            let modes = if probes.modes {
                mode_steps(drv, mac)
            } else {
                Seq::<StepModel>::empty()
            };
            let pixel = if probes.pixel {
                pixel_steps(drv, mac)
            } else {
                Seq::<StepModel>::empty()
            };
            &&& start.len() == 7
            &&& start[0].frame == power_bytes(drv, mac, false)
            &&& start[1].frame == power_bytes(drv, mac, true)
            &&& start[5].frame == power_bytes(drv, mac, true)
            &&& start[6].frame == cct_bytes(drv, mac, 50, 56)
            &&& s == start + colors + modes + pixel
        }),
{
    let none = Seq::<StepModel>::empty();
    let start = test_steps(
        drv,
        mac,
        TestProbes { colors: false, modes: false, pixel: false, ..probes },
    );
    let head = blinks(power_bytes(drv, mac, false), power_bytes(drv, mac, true)).push(
        super::once(cct_bytes(drv, mac, 50, 56), 0),
    );
    assert(start =~= head + none + none + none);
    assert(start =~= head);
}

/// The palettes that the pixel probe shows.
pub proof fn law_pixel_probe_shows(drv: TestDriver, mac: Seq<u8>)
    requires
        mac.len() == 6,
    ensures
        ({
            let s = pixel_steps(drv, mac);
            let hue = |f: Seq<u8>, k: int| (f[11 + 3 * k] - 0x10) * 256 + f[12 + 3 * k];
            &&& hue(s[2].frame, 0) == 0 && hue(s[2].frame, 1) == 120 && hue(s[2].frame, 2) == 240
                && hue(s[2].frame, 3) == 55
            &&& s[5].frame[11] == 0x20 && hue(s[5].frame, 1) == 0 && hue(s[5].frame, 2) == 240
            &&& s[8].frame[11] == 0x20 && hue(s[8].frame, 1) == 0 && hue(s[8].frame, 2) == 120
                && hue(s[8].frame, 3) == 240
            &&& s[11].frame[11] == 0x20 && hue(s[11].frame, 1) == 25
        }),
{
    let one = seq![full(0), full(120), full(240), full(55)];
    let two = seq![Block::Off, full(0), full(240)];
    let three = seq![Block::Off, full(0), full(120), full(240)];
    let fire = seq![Block::Off, full(25)];
    lemma_shown(mac, one, 1, 4);
    lemma_shown(mac, two, 4, 3);
    lemma_shown(mac, three, 5, 4);
    lemma_shown(mac, fire, 7, 2);
    let a = demo(drv, mac, one, 1);
    let b = demo(drv, mac, two, 4);
    let c = demo(drv, mac, three, 5);
    let d = demo(drv, mac, fire, 7);
    assert(a.len() == 3 && b.len() == 3 && c.len() == 3 && d.len() == 3);
    let s = pixel_steps(drv, mac);
    assert(s[2] == a[2] && s[5] == b[2] && s[8] == c[2] && s[11] == d[2]);
}

proof fn lemma_shown(mac: Seq<u8>, blocks: Seq<Block>, effect: u8, n: int)
    requires
        mac.len() == 6,
        effect == 1 || effect == 4 || effect == 5 || effect == 7,
        blocks.len() == n,
        effect == 1 ==> n == 4,
        effect == 4 ==> n == 3,
        effect == 5 ==> n == 4,
        effect == 7 ==> n == 2,
    ensures
        ({
            let fs = paint_frames(mac, blocks, 100, effect, 40, 1);
            &&& fs.len() == 2
            &&& forall|k: int|
                0 <= k < n ==> fs[1][11 + 3 * k] == (#[trigger] blocks[k]).wire()[0] && fs[1][12 + 3
                    * k] == blocks[k].wire()[1]
        }),
{
    let fs = paint_frames(mac, blocks, 100, effect, 40, 1);
    let p = palette_of(fs[1]);
    assert forall|k: int| 0 <= k < n implies fs[1][11 + 3 * k] == (#[trigger] blocks[k]).wire()[0]
        && fs[1][12 + 3 * k] == blocks[k].wire()[1] by {
        if effect == 1 {
            law_colour_replacement_sends_every_block(mac, blocks, 100, effect, 40, 1, k);
        } else if effect == 7 {
            law_fire_sends_background_and_colour(mac, blocks, 100, 40, 1);
            assert(p.take(3)[0] == p[0] && p.take(3)[1] == p[1]);
            assert(p.skip(3)[0] == p[3] && p.skip(3)[1] == p[4]);
        } else {
            law_moving_effects_send_their_colours(mac, blocks, 100, effect, 40, 1, k);
        }
        assert(p[3 * k] == fs[1][11 + 3 * k]);
        assert(p[3 * k + 1] == fs[1][12 + 3 * k]);
    }
    if effect == 1 {
        law_colour_replacement_sends_every_block(mac, blocks, 100, effect, 40, 1, 0);
    }
}

/// The names of the pixel effects, in the order of their ids.
pub proof fn law_pixel_effect_names(id: u8)
    requires
        1 <= id <= 10,
    ensures
        pixel_effect_name(id) == seq![
            "ColorReplacement"@,
            "ColorAlternate"@,
            "SingleColorMoving"@,
            "TwoColorMoving"@,
            "ThreeColorMoving"@,
            "Colorful"@,
            "Fire"@,
            "ColorGradient"@,
            "Trail"@,
            "ColorShift"@,
        ][id - 1],
{
}

/// A list of steps is taken step by step, in order.
pub proof fn law_steps_in_order(steps: Seq<Step>, i: int)
    requires
        0 <= i < steps.len(),
    ensures
        steps_of(steps).len() == steps.len(),
        steps_of(steps)[i].frame == steps[i].frame@,
        steps_of(steps)[i].chunked == steps[i].chunked,
        steps_of(steps)[i].pause_ms == steps[i].pause_ms,
{
}

} // verus!
