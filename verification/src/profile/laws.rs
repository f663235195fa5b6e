//! What the mapping from DMX channels to light states promises, channel by channel.

use vstd::prelude::*;
use crate::protocol::pixel::Block;
use crate::protocol::{LightState, Mode};
use super::{hue_angle, mapped, rgb_hue, rgb_sat, scaled, CctRange, Profile};

verus! {

/// Whether `v` is what a channel value `d` stands for on a scale from 0 to `max`,
/// rounded to the nearest: 255 such steps make the whole scale.
pub open spec fn nearest(v: int, d: u8, max: int) -> bool {
    -127 <= 255 * v - d * max <= 127
}

/// Scaling rounds to the nearest value.
pub proof fn law_scaling_is_to_the_nearest(d: u8, max: int)
    requires
        0 <= max,
    ensures
        nearest(scaled(d, max), d, max),
{
}

/// The width of a light's colour-temperature range; none where it is reversed.
pub open spec fn width(cct: CctRange) -> int {
    if cct.max >= cct.min {
        cct.max - cct.min
    } else {
        0
    }
}

proof fn lemma_scaled(d: u8)
    ensures
        nearest(scaled(d, 100), d, 100),
        nearest(scaled(d, 360), d, 360),
        nearest(scaled(d, 17), d, 17),
        nearest(scaled(d, 9), d, 9),
        nearest(scaled(d, 10), d, 10),
        nearest(scaled(d, 8000), d, 8000),
        0 <= scaled(d, 100) <= 100,
        0 <= scaled(d, 360) <= 360,
        0 <= scaled(d, 17) <= 17,
        0 <= scaled(d, 9) <= 9,
        0 <= scaled(d, 10) <= 10,
        0 <= scaled(d, 8000) <= 8000,
{
}

proof fn lemma_scaled_width(d: u8, cct: CctRange)
    ensures
        nearest(scaled(d, width(cct)), d, width(cct)),
        0 <= scaled(d, width(cct)) <= width(cct),
{
    super::law_scaling_keeps_order_and_ends(d, 255, width(cct));
}

/// The state holds a white: its channels for brightness, colour temperature and tint
/// have these values.
pub open spec fn is_white(st: LightState, cct: CctRange, dim: u8, temp: u8) -> bool {
    &&& st.mode == Mode::Cct
    &&& nearest(st.brightness as int, dim, 100)
    &&& nearest(st.cct - cct.min, temp, width(cct))
}

/// The state holds a colour: its channels for brightness, hue and saturation have these
/// values.
pub open spec fn is_colour(st: LightState, dim: u8, hue: u8, sat: u8) -> bool {
    &&& st.mode == Mode::Hsi
    &&& nearest(st.brightness as int, dim, 100)
    &&& nearest(st.hue as int, hue, 360)
    &&& nearest(st.sat as int, sat, 100)
}

/// The layouts of the white profiles: dimmer, colour temperature and, where there is a
/// third channel, the tint from -50 to 50.
pub proof fn law_white_layouts(s: Seq<u8>, cct: CctRange)
    requires
        s.len() >= 3,
    ensures
        is_white(mapped(Profile::Cct, s, cct), cct, s[0], s[1]),
        mapped(Profile::Cct, s, cct).gm == 0,
        is_white(mapped(Profile::CctGm, s, cct), cct, s[0], s[1]),
        nearest(mapped(Profile::CctGm, s, cct).gm + 50, s[2], 100),
{
    lemma_scaled(s[0]);
    lemma_scaled(s[2]);
    lemma_scaled_width(s[1], cct);
}

/// The layout of the colour profile: dimmer, hue, saturation.
pub proof fn law_hsi_layout(s: Seq<u8>, cct: CctRange)
    requires
        s.len() >= 3,
    ensures
        is_colour(mapped(Profile::Hsi, s, cct), s[0], s[1], s[2]),
{
    lemma_scaled(s[0]);
    lemma_scaled(s[1]);
    lemma_scaled(s[2]);
}

/// The layout of the `full` profile: dimmer, then a mode channel whose lower half makes
/// the next two channels colour temperature and tint, and whose upper half makes them hue
/// and saturation.
pub proof fn law_full_layout(s: Seq<u8>, cct: CctRange)
    requires
        s.len() >= 5,
    ensures
        s[1] <= 127 ==> is_white(mapped(Profile::Full, s, cct), cct, s[0], s[2]) && nearest(
            mapped(Profile::Full, s, cct).gm + 50,
            s[3],
            100,
        ),
        s[1] >= 128 ==> is_colour(mapped(Profile::Full, s, cct), s[0], s[2], s[3]),
{
    lemma_scaled(s[0]);
    lemma_scaled(s[2]);
    lemma_scaled(s[3]);
    lemma_scaled_width(s[2], cct);
}

/// The layout of the `rgbcw` profile: one channel for each bank of LEDs, handed on as it
/// is, at full brightness.
pub proof fn law_rgbcw_layout(s: Seq<u8>, cct: CctRange)
    requires
        s.len() >= 5,
    ensures
        ({
            let st = mapped(Profile::Rgbcw, s, cct);
            &&& st.mode == Mode::Rgbcw
            &&& st.brightness == 100
            &&& seq![st.r, st.g, st.b, st.cw, st.ww] == s.take(5)
        }),
{
    let st = mapped(Profile::Rgbcw, s, cct);
    assert(seq![st.r, st.g, st.b, st.cw, st.ww] =~= s.take(5));
}

/// The layout of the `advanced` profile: the first channel selects the mode by bands, the
/// second one is the dimmer, the others are read as the mode has them. A value between the
/// bands gives the white in the middle of the light's range.
pub proof fn law_advanced_layout(s: Seq<u8>, cct: CctRange)
    requires
        s.len() >= 10,
    ensures
        ({
            let st = mapped(Profile::Advanced, s, cct);
            let sel = s[0];
            &&& nearest(st.brightness as int, s[1], 100)
            &&& sel <= 31 ==> is_white(st, cct, s[1], s[2]) && nearest(st.gm + 50, s[3], 100)
            &&& 32 <= sel <= 63 ==> is_colour(st, s[1], s[2], s[3])
            &&& 64 <= sel <= 95 ==> {
                &&& st.mode == Mode::Fx
                &&& nearest(st.fx_id - 1, s[2], 17)
                &&& nearest(st.fx_speed - 1, s[3], 9)
                &&& nearest(st.cct - cct.min, s[4], width(cct))
                &&& nearest(st.hue as int, s[5], 360)
                &&& nearest(st.sat as int, s[6], 100)
                &&& nearest(st.gm + 50, s[6], 100)
                &&& nearest(st.fx_extra as int, s[7], 10)
                &&& st.fx_id == 13 ==> nearest(st.fx_val2 - cct.min, s[8], width(cct))
                &&& st.fx_id != 13 ==> nearest(st.fx_val2 as int, s[8], 360)
            }
            &&& 128 <= sel <= 159 ==> {
                &&& st.mode == Mode::Rgbcw
                &&& seq![st.r, st.g, st.b, st.cw, st.ww] == s.subrange(2, 7)
            }
            &&& 192 <= sel <= 231 ==> {
                &&& st.mode == Mode::Xy
                &&& nearest(st.x as int, s[2], 8000)
                &&& nearest(st.y as int, s[3], 8000)
            }
            &&& 96 <= sel <= 127 || 160 <= sel <= 191 || 232 <= sel ==> {
                &&& is_white(st, cct, s[1], 128)
                &&& st.gm == 0
            }
        }),
{
    let st = mapped(Profile::Advanced, s, cct);
    lemma_scaled(s[1]);
    lemma_scaled(s[2]);
    lemma_scaled(s[3]);
    lemma_scaled(s[5]);
    lemma_scaled(s[6]);
    lemma_scaled(s[7]);
    lemma_scaled(s[8]);
    lemma_scaled_width(s[2], cct);
    lemma_scaled_width(s[4], cct);
    lemma_scaled_width(s[8], cct);
    lemma_scaled_width(128, cct);
    if 128 <= s[0] <= 159 {
        assert(seq![st.r, st.g, st.b, st.cw, st.ww] =~= s.subrange(2, 7));
    }
}

/// The layout of the `pixel` profile: dimmer, effect, speed and direction, then hue and
/// saturation of each of the eight segments, in order along the tube.
pub proof fn law_pixel_layout(s: Seq<u8>, cct: CctRange, i: int)
    requires
        s.len() >= 20,
        0 <= i < 8,
    ensures
        ({
            let st = mapped(Profile::Pixel, s, cct);
            &&& st.mode == Mode::Pixel
            &&& nearest(st.brightness as int, s[0], 100)
            &&& st.pixel_effect == 1 <==> s[1] <= 51
            &&& st.pixel_effect == 3 <==> 52 <= s[1] <= 102
            &&& st.pixel_effect == 4 <==> 103 <= s[1] <= 153
            &&& st.pixel_effect == 5 <==> 154 <= s[1] <= 204
            &&& st.pixel_effect == 7 <==> 205 <= s[1]
            &&& nearest(st.pixel_speed as int, s[2], 100)
            &&& st.pixel_dir == 0 <==> s[3] <= 127
            &&& st.pixel_dir == 1 <==> s[3] >= 128
            &&& st.seg_count == 8
            &&& st.segments@[i] matches Block::Hsi { hue, sat } && nearest(
                hue as int,
                s[4 + 2 * i],
                360,
            ) && nearest(sat as int, s[5 + 2 * i], 100)
        }),
{
    lemma_scaled(s[0]);
    lemma_scaled(s[2]);
    lemma_scaled(s[4 + 2 * i]);
    lemma_scaled(s[5 + 2 * i]);
    let st = mapped(Profile::Pixel, s, cct);
    if i == 0 {
    } else if i == 1 {
    } else if i == 2 {
    } else if i == 3 {
    } else if i == 4 {
    } else if i == 5 {
    } else if i == 6 {
    } else {
    }
}

/// Channels that are missing read as 0.
pub proof fn law_missing_channels_read_as_zero(profile: Profile, s: Seq<u8>, cct: CctRange)
    ensures
        mapped(profile, s.push(0), cct) == mapped(profile, s, cct),
{
    assert forall|i: int| #[trigger] super::channel(s.push(0), i) == super::channel(s, i) by {}
    super::law_mapping_reads_only_its_channels(profile, s.push(0), s, cct);
}

/// The state that three plain channels for red, green and blue ask for.
pub open spec fn rgb(r: u8, g: u8, b: u8, cct: CctRange) -> LightState {
    mapped(Profile::Rgb, seq![r, g, b], cct)
}

/// Whether a hue lies `part / whole` of a sixth of the colour circle away from a base
/// angle, in whole degrees, the rest dropped.
pub open spec fn sixth(away: int, part: int, whole: int) -> bool {
    whole * away <= 60 * part < whole * (away + 1)
}

proof fn lemma_sixth(part: int, whole: int)
    requires
        0 <= part <= whole,
        0 < whole,
    ensures
        sixth(60 * part / whole, part, whole),
        0 <= 60 * part / whole <= 60,
{
    let q = 60 * part / whole;
    vstd::arithmetic::div_mod::lemma_fundamental_div_mod(60 * part, whole);
    assert(whole * q <= 60 * part < whole * (q + 1)) by (nonlinear_arith)
        requires
            60 * part == whole * q + (60 * part) % whole,
            0 <= (60 * part) % whole < whole,
    ;
    assert(0 <= q <= 60) by (nonlinear_arith)
        requires
            q == 60 * part / whole,
            0 <= part <= whole,
            0 < whole,
    ;
}

/// The hue of every colour: a sixth of the circle each between red and yellow, yellow and
/// green, green and cyan, cyan and blue, blue and magenta, magenta and red, measured from
/// the nearest of red, green and blue by how far the middle component rises above the
/// least one. Greys have hue 0.
pub proof fn law_rgb_hue(r: u8, g: u8, b: u8, cct: CctRange)
    ensures
        ({
            let h = rgb(r, g, b, cct).hue as int;
            &&& 0 <= h < 360
            &&& r == g && g == b ==> h == 0
            &&& r >= g && g >= b && r > b ==> h <= 60 && sixth(h, g - b, r - b)
            &&& g >= r && r >= b && g > b ==> 60 <= h <= 120 && sixth(120 - h, r - b, g - b)
            &&& g >= b && b >= r && g > r ==> 120 <= h <= 180 && sixth(h - 120, b - r, g - r)
            &&& b >= g && g >= r && b > r ==> 180 <= h <= 240 && sixth(240 - h, g - r, b - r)
            &&& b >= r && r >= g && b > g ==> 240 <= h <= 300 && sixth(h - 240, r - g, b - g)
            &&& r >= b && b >= g && r > g ==> sixth((360 - h) % 360, b - g, r - g)
        }),
{
    lemma_rgb(r, g, b, cct);
    lemma_hue(r as int, g as int, b as int);
}

proof fn lemma_hue(x: int, y: int, z: int)
    requires
        0 <= x <= 255,
        0 <= y <= 255,
        0 <= z <= 255,
    ensures
        0 <= rgb_hue(x, y, z) < 360,
        x == y && y == z ==> rgb_hue(x, y, z) == 0,
        x >= y && y >= z && x > z ==> rgb_hue(x, y, z) <= 60 && sixth(
            rgb_hue(x, y, z),
            y - z,
            x - z,
        ),
        y >= x && x >= z && y > z ==> 60 <= rgb_hue(x, y, z) <= 120 && sixth(
            120 - rgb_hue(x, y, z),
            x - z,
            y - z,
        ),
        y >= z && z >= x && y > x ==> 120 <= rgb_hue(x, y, z) <= 180 && sixth(
            rgb_hue(x, y, z) - 120,
            z - x,
            y - x,
        ),
        z >= y && y >= x && z > x ==> 180 <= rgb_hue(x, y, z) <= 240 && sixth(
            240 - rgb_hue(x, y, z),
            y - x,
            z - x,
        ),
        z >= x && x >= y && z > y ==> 240 <= rgb_hue(x, y, z) <= 300 && sixth(
            rgb_hue(x, y, z) - 240,
            x - y,
            z - y,
        ),
        x >= z && z >= y && x > y ==> sixth((360 - rgb_hue(x, y, z)) % 360, z - y, x - y),
{
    lemma_red_side(x, y, z);
    lemma_green_side(x, y, z);
    lemma_blue_side(x, y, z);
}

proof fn lemma_red_side(x: int, y: int, z: int)
    ensures
        x == y && y == z ==> rgb_hue(x, y, z) == 0,
        x >= y && y >= z && x > z ==> 0 <= rgb_hue(x, y, z) <= 60 && sixth(
            rgb_hue(x, y, z),
            y - z,
            x - z,
        ),
        x >= z && z >= y && x > y ==> 0 <= rgb_hue(x, y, z) < 360 && sixth(
            (360 - rgb_hue(x, y, z)) % 360,
            z - y,
            x - y,
        ),
{
    if x >= y && y >= z && x > z {
        let q = lemma_sectors(x, y, z);
        if z == y {
            assert(q == 0) by (nonlinear_arith)
                requires
                    (x - z) * q <= 0,
                    x > z,
                    q >= 0,
            ;
        }
    } else if x >= z && z >= y && x > y {
        let q = lemma_sectors(x, z, y);
        assert((360 - (360 - q) % 360) % 360 == q);
    }
}

proof fn lemma_green_side(x: int, y: int, z: int)
    ensures
        y >= x && x >= z && y > z ==> 60 <= rgb_hue(x, y, z) <= 120 && sixth(
            120 - rgb_hue(x, y, z),
            x - z,
            y - z,
        ),
        y >= z && z >= x && y > x ==> 120 <= rgb_hue(x, y, z) <= 180 && sixth(
            rgb_hue(x, y, z) - 120,
            z - x,
            y - x,
        ),
{
    if y >= x && x >= z && y > z {
        let q = lemma_sectors(y, x, z);
        if x == z {
            assert(q == 0) by (nonlinear_arith)
                requires
                    (y - z) * q <= 0,
                    y > z,
                    q >= 0,
            ;
        }
    } else if y >= z && z >= x && y > x {
        let q = lemma_sectors(y, z, x);
    }
}

proof fn lemma_blue_side(x: int, y: int, z: int)
    ensures
        z >= y && y >= x && z > x ==> 180 <= rgb_hue(x, y, z) <= 240 && sixth(
            240 - rgb_hue(x, y, z),
            y - x,
            z - x,
        ),
        z >= x && x >= y && z > y ==> 240 <= rgb_hue(x, y, z) <= 300 && sixth(
            rgb_hue(x, y, z) - 240,
            x - y,
            z - y,
        ),
{
    if z >= y && y >= x && z > x {
        let q = lemma_sectors(z, y, x);
        if x == y {
            assert(q == 0) by (nonlinear_arith)
                requires
                    (z - x) * q <= 0,
                    z > x,
                    q >= 0,
            ;
        }
    } else if z >= x && x >= y && z > y {
        let q = lemma_sectors(z, x, y);
    }
}

proof fn lemma_rgb(r: u8, g: u8, b: u8, cct: CctRange)
    ensures
        rgb(r, g, b, cct).hue == rgb_hue(r as int, g as int, b as int) as u16,
        rgb(r, g, b, cct).sat == rgb_sat(r as int, g as int, b as int) as u8,
{
    let s = seq![r, g, b];
    assert(s[0] == r && s[1] == g && s[2] == b);
}

/// The angle between a primary and a point `part / whole` of a sixth away from it, on
/// either side.
proof fn lemma_angle(base: int, part: int, whole: int) -> (q: int)
    requires
        0 <= part <= whole,
        0 < whole,
    ensures
        0 <= q <= 60,
        q == 60 * part / whole,
        sixth(q, part, whole),
        part == whole ==> q == 60,
        hue_angle(base, part, whole) == (base + q) % 360,
        hue_angle(base, -part, whole) == (base - q) % 360,
{
    let q = 60 * part / whole;
    lemma_sixth(part, whole);
    if part == whole {
        assert(60 * whole / whole == 60) by (nonlinear_arith)
            requires
                whole > 0,
        ;
    }
    if part == 0 {
        assert(0int / whole == 0) by (nonlinear_arith)
            requires
                whole > 0,
        ;
    }
    q
}

/// The hue of a colour whose components are ordered, in each sixth of the circle.
proof fn lemma_sectors(x: int, y: int, z: int) -> (q: int)
    requires
        x >= y >= z,
        x > z,
    ensures
        0 <= q <= 60,
        sixth(q, y - z, x - z),
        rgb_hue(x, y, z) == q,
        rgb_hue(y, x, z) == 120 - q,
        rgb_hue(z, x, y) == 120 + q,
        rgb_hue(z, y, x) == 240 - q,
        rgb_hue(y, z, x) == 240 + q,
        rgb_hue(x, z, y) == (360 - q) % 360,
{
    let q = 60 * (y - z) / (x - z);
    let q0 = lemma_angle(0, y - z, x - z);
    let q1 = lemma_angle(120, y - z, x - z);
    let q2 = lemma_angle(240, y - z, x - z);
    q
}

/// The corners of the colour circle lie 60 degrees apart: red, yellow, green, cyan, blue,
/// magenta, at every brightness.
pub proof fn law_rgb_corners(v: u8, cct: CctRange)
    requires
        v > 0,
    ensures
        rgb(v, 0, 0, cct).hue == 0,
        rgb(v, v, 0, cct).hue == 60,
        rgb(0, v, 0, cct).hue == 120,
        rgb(0, v, v, cct).hue == 180,
        rgb(0, 0, v, cct).hue == 240,
        rgb(v, 0, v, cct).hue == 300,
{
    law_rgb_hue(v, 0, 0, cct);
    law_rgb_hue(v, v, 0, cct);
    law_rgb_hue(0, v, 0, cct);
    law_rgb_hue(0, v, v, cct);
    law_rgb_hue(0, 0, v, cct);
    law_rgb_hue(v, 0, v, cct);
    let w = v as int;
    assert forall|h: int| 0 <= h && #[trigger] sixth(h, 0, w) implies h == 0 by {
        assert(h == 0) by (nonlinear_arith)
            requires
                w * h <= 0,
                w > 0,
                h >= 0,
        ;
    }
    assert forall|h: int| h <= 60 && #[trigger] sixth(h, w, w) implies h == 60 by {
        assert(h >= 60) by (nonlinear_arith)
            requires
                60 * w < w * (h + 1),
                w > 0,
        ;
    }
}

/// Handing each component on to the next one, red to green, green to blue and blue to
/// red, turns the hue by a third of the circle and leaves saturation and brightness.
pub proof fn law_rgb_rotation(r: u8, g: u8, b: u8, cct: CctRange)
    requires
        !(r == g && g == b),
    ensures
        rgb(b, r, g, cct).hue == (rgb(r, g, b, cct).hue + 120) % 360,
        rgb(b, r, g, cct).sat == rgb(r, g, b, cct).sat,
        rgb(b, r, g, cct).brightness == rgb(r, g, b, cct).brightness,
{
    lemma_rgb(r, g, b, cct);
    lemma_rgb(b, r, g, cct);
    lemma_turn(r as int, g as int, b as int);
    let t = seq![b, r, g];
    let s = seq![r, g, b];
    assert(t[0] == b && t[1] == r && t[2] == g);
    assert(s[0] == r && s[1] == g && s[2] == b);
}

proof fn lemma_turn(x: int, y: int, z: int)
    requires
        0 <= x <= 255,
        0 <= y <= 255,
        0 <= z <= 255,
        !(x == y && y == z),
    ensures
        rgb_hue(z, x, y) == (rgb_hue(x, y, z) + 120) % 360,
        0 <= rgb_hue(x, y, z) < 360,
{
    if x >= y && y >= z {
        let q = lemma_sectors(x, y, z);
    } else if y >= x && x >= z {
        let q = lemma_sectors(y, x, z);
    } else if y >= z && z >= x {
        let q = lemma_sectors(y, z, x);
    } else if z >= y && y >= x {
        let q = lemma_sectors(z, y, x);
    } else if z >= x && x >= y {
        let q = lemma_sectors(z, x, y);
    } else {
        let q = lemma_sectors(x, z, y);
    }
}

/// Saturation and brightness of a colour: by how much of the largest component the least
/// one is missing, in percent to the nearest, and the largest component on the scale of
/// brightness. Black is dark and has no saturation.
pub proof fn law_rgb_saturation_and_brightness(r: u8, g: u8, b: u8, cct: CctRange, max: u8, min: u8)
    requires
        max == r || max == g || max == b,
        min == r || min == g || min == b,
        min <= r <= max,
        min <= g <= max,
        min <= b <= max,
    ensures
        ({
            let st = rgb(r, g, b, cct);
            &&& st.mode == Mode::Hsi
            &&& max == 0 ==> st.sat == 0 && st.brightness == 0
            &&& max > 0 ==> -(max as int) <= 2 * (max * st.sat - 100 * (max - min)) <= max
            &&& nearest(st.brightness as int, max, 100)
        }),
{
    let s = seq![r, g, b];
    assert(s[0] == r && s[1] == g && s[2] == b);
    lemma_scaled(max);
    if max > 0 {
        let m = max as int;
        let d = max - min;
        let q = (d * 100 + m / 2) / m;
        vstd::arithmetic::div_mod::lemma_fundamental_div_mod(d * 100 + m / 2, m);
        assert(0 <= q <= 100) by (nonlinear_arith)
            requires
                q == (d * 100 + m / 2) / m,
                0 <= d <= m,
                0 < m,
        ;
        assert(m * q == d * 100 + m / 2 - (d * 100 + m / 2) % m);
    }
}

/// What the channels of the plain profiles are called, in order, and how many there are in
/// each.
pub proof fn law_channel_names(p: Profile)
    ensures
        p.roles().len() == match p {
            Profile::Cct => 2int,
            Profile::CctGm | Profile::Hsi | Profile::Rgb => 3,
            Profile::Rgbcw | Profile::Full => 5,
            Profile::Advanced => 10,
            Profile::Pixel => 20,
        },
        p.roles().len() == p.channels(),
        p == Profile::Cct || p == Profile::CctGm || p == Profile::Hsi || p == Profile::Full
            ==> p.roles()[0] == "Dimmer"@,
        p == Profile::Cct || p == Profile::CctGm ==> p.roles()[1] == "CCT"@,
        p == Profile::CctGm ==> p.roles()[2] == "GM"@,
        p == Profile::Hsi ==> p.roles()[1] == "Hue"@ && p.roles()[2] == "Saturation"@,
        p == Profile::Rgb || p == Profile::Rgbcw ==> p.roles()[0] == "Red"@ && p.roles()[1]
            == "Green"@ && p.roles()[2] == "Blue"@,
        p == Profile::Rgbcw ==> p.roles()[3] == "Cool White"@ && p.roles()[4] == "Warm White"@,
{
}

} // verus!
