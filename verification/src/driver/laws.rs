//! What holds of the frames a driver sends, byte by byte.

use vstd::prelude::*;
use super::{resolved, Driver};
use crate::profile::Profile;
use crate::protocol::infinity::effect_data;
use crate::protocol::laws::{high_first, holds_mac, law_effect_frames, low_first, palettes_of};
use crate::protocol::{LightState, Mode};

verus! {

/// Whether a driver sends the advanced modes in their MAC-embedded form.
pub open spec fn embeds_mac(d: Driver) -> bool {
    match d {
        Driver::Classic { mac_frames, .. } => mac_frames,
        Driver::Infinity { .. } => true,
        Driver::Home => false,
    }
}

/// The MAC that a driver's frames carry.
pub open spec fn mac_in(d: Driver) -> Seq<u8> {
    match d {
        Driver::Classic { mac, .. } => mac@,
        Driver::Infinity { mac } => mac@,
        Driver::Home => seq![],
    }
}

/// The LED channels of an RGBCW state stand behind the brightness in the order red,
/// green, blue, cool white, warm white: at bytes 11 to 15 of the frame
/// `78 A9 0E <MAC6> A8 ..`, or at bytes 4 to 8 of the frame `78 A8 07 ..`.
pub proof fn law_led_channels_on_the_wire(d: Driver, st: LightState)
    requires
        st.mode == Mode::Rgbcw,
        d !is Home,
    ensures
        d.frames(st).len() == 1,
        embeds_mac(d) ==> {
            let f = d.frames(st)[0];
            &&& f.len() == 18
            &&& f[0] == 0x78 && f[1] == 0xA9 && f[2] == 0x0E
            &&& holds_mac(f, 3, mac_in(d))
            &&& f[9] == 0xA8
            &&& f[10] == st.brightness
            &&& f[11] == st.r
            &&& f[12] == st.g
            &&& f[13] == st.b
            &&& f[14] == st.cw
            &&& f[15] == st.ww
            &&& f[16] == 0
        },
        !embeds_mac(d) ==> {
            let f = d.frames(st)[0];
            &&& f.len() == 11
            &&& f[0] == 0x78 && f[1] == 0xA8 && f[2] == 0x07
            &&& f[3] == st.brightness
            &&& f[4] == st.r
            &&& f[5] == st.g
            &&& f[6] == st.b
            &&& f[7] == st.cw
            &&& f[8] == st.ww
            &&& f[9] == 0
        },
{
}

/// The xy coordinates of a state read back from the frame, x first, low byte first, each
/// up to 8000.
pub proof fn law_xy_on_the_wire(d: Driver, st: LightState)
    requires
        st.mode == Mode::Xy,
        d !is Home,
        st.x <= 8000,
        st.y <= 8000,
    ensures
        d.frames(st).len() == 1,
        embeds_mac(d) ==> {
            let f = d.frames(st)[0];
            &&& f.len() == 16
            &&& f[0] == 0x78 && f[1] == 0xB7 && f[2] == 0x0C
            &&& holds_mac(f, 3, mac_in(d))
            &&& f[9] == st.brightness
            &&& low_first(f, 10) == st.x
            &&& low_first(f, 12) == st.y
            &&& f[14] == 0
        },
        !embeds_mac(d) ==> {
            let f = d.frames(st)[0];
            &&& f.len() == 10
            &&& f[0] == 0x78 && f[1] == 0xB9 && f[2] == 0x06
            &&& f[3] == st.brightness
            &&& low_first(f, 4) == st.x
            &&& low_first(f, 6) == st.y
            &&& f[8] == 0
        },
{
}

/// A coordinate past 8000 is sent as 8000, and the rest as it is.
pub proof fn law_xy_is_held_to_its_range(d: Driver, st: LightState)
    requires
        st.mode == Mode::Xy,
    ensures
        st.x > 8000 ==> d.frames(st) == d.frames(LightState { x: 8000, ..st }),
        st.y > 8000 ==> d.frames(st) == d.frames(LightState { y: 8000, ..st }),
{
}

/// White on the wire, in each family: brightness, colour temperature and, where the
/// light has it, the tint plus 50.
pub proof fn law_white_on_the_wire(d: Driver, st: LightState)
    requires
        st.mode == Mode::Cct,
        -50 <= st.gm <= 50,
    ensures
        d.frames(st).len() == 1,
        d is Infinity ==> {
            let f = d.frames(st)[0];
            &&& f.len() == 15
            &&& f[0] == 0x78 && f[1] == 0x90 && f[2] == 0x0B
            &&& holds_mac(f, 3, mac_in(d))
            &&& f[9] == 0x87
            &&& f[10] == st.brightness
            &&& f[11] == st.cct
            &&& f[12] == st.gm + 50
            &&& f[13] == 0x04
        },
        d matches Driver::Classic { supports_gm, .. } ==> {
            let f = d.frames(st)[0];
            &&& f[0] == 0x78 && f[1] == 0x87
            &&& f[3] == st.brightness
            &&& f[4] == st.cct
            &&& supports_gm ==> f.len() == 8 && f[2] == 4 && f[5] == st.gm + 50 && f[6] == 0
            &&& !supports_gm ==> f.len() == 6 && f[2] == 2
        },
{
}

/// A tint past either end of -50..=50 is sent as that end.
pub proof fn law_tint_is_held_to_its_range(d: Driver, st: LightState)
    ensures
        st.gm < -50 ==> d.frames(st) == d.frames(LightState { gm: -50i8, ..st }),
        st.gm > 50 ==> d.frames(st) == d.frames(LightState { gm: 50, ..st }),
{
}

/// Home lights: brightness stands in tenths of a percent, as two digit bytes that read
/// back as `tens * 10 + units`. Every mode but colour is sent as white.
pub proof fn law_home_on_the_wire(st: LightState)
    requires
        st.brightness <= 100,
    ensures
        Driver::Home.frames(st).len() == 1,
        st.mode != Mode::Hsi ==> {
            let f = Driver::Home.frames(st)[0];
            &&& f.len() == 10
            &&& f[0] == 0x7A && f[1] == 0x0C && f[2] == 0x06
            &&& f[3] * 10 + f[4] == st.brightness * 10
            &&& f[4] <= 9
            &&& f[5] == st.cct
            &&& f[6] == 0 && f[7] == 1 && f[8] == 0
        },
        st.mode == Mode::Hsi && st.hue <= 360 ==> {
            let f = Driver::Home.frames(st)[0];
            &&& f.len() == 15
            &&& f[0] == 0x7A && f[1] == 0x0D && f[2] == 0x00 && f[3] == 0x0A
            &&& f[4] * 10 + f[5] == st.brightness * 10
            &&& f[5] <= 9
            &&& f[6] == 0x01 && f[7] == 0x64
            &&& high_first(f, 8) == st.hue
            &&& f[10] == st.sat
            &&& f[11] == 0 && f[12] == 1 && f[13] == 0
        },
{
}

/// Colour on the wire: the hue low byte first, then saturation, then brightness.
pub proof fn law_colour_on_the_wire(d: Driver, st: LightState)
    requires
        st.mode == Mode::Hsi,
        st.hue <= 360,
    ensures
        d.frames(st).len() == 1,
        d is Infinity ==> {
            let f = d.frames(st)[0];
            &&& f.len() == 16
            &&& f[0] == 0x78 && f[1] == 0x8F && f[2] == 0x0C
            &&& holds_mac(f, 3, mac_in(d))
            &&& f[9] == 0x86
            &&& low_first(f, 10) == st.hue
            &&& f[12] == st.sat
            &&& f[13] == st.brightness
            &&& f[14] == 0
        },
        d is Classic ==> {
            let f = d.frames(st)[0];
            &&& f.len() == 8
            &&& f[0] == 0x78 && f[1] == 0x86 && f[2] == 0x04
            &&& low_first(f, 3) == st.hue
            &&& f[5] == st.sat
            &&& f[6] == st.brightness
        },
{
}

/// A hue past 360 is sent as 360.
pub proof fn law_hue_is_held_to_its_range(d: Driver, st: LightState)
    requires
        st.hue > 360,
    ensures
        d.frames(st) == d.frames(LightState { hue: 360, ..st }),
{
    let capped = LightState { hue: 360, ..st };
    assert(capped.segments == st.segments);
    assert(effect_data(
        st.fx_id,
        st.brightness,
        st.cct,
        st.gm,
        st.hue,
        st.sat,
        st.fx_speed,
        st.fx_extra,
        st.fx_val2,
    ) == effect_data(
        st.fx_id,
        st.brightness,
        st.cct,
        st.gm,
        360,
        st.sat,
        st.fx_speed,
        st.fx_extra,
        st.fx_val2,
    ));
}

/// An effect state carries, behind the header of its form, the effect's data made of the
/// state's own fields.
pub proof fn law_effect_on_the_wire(d: Driver, st: LightState, i: int)
    requires
        st.mode == Mode::Fx,
        d !is Home,
        0 <= i < effect_data(
            st.fx_id,
            st.brightness,
            st.cct,
            st.gm,
            st.hue,
            st.sat,
            st.fx_speed,
            st.fx_extra,
            st.fx_val2,
        ).len(),
    ensures
        d.frames(st).len() == 1,
        ({
            let f = d.frames(st)[0];
            let data = effect_data(
                st.fx_id,
                st.brightness,
                st.cct,
                st.gm,
                st.hue,
                st.sat,
                st.fx_speed,
                st.fx_extra,
                st.fx_val2,
            );
            &&& embeds_mac(d) ==> {
                &&& f.len() == data.len() + 11
                &&& f[0] == 0x78 && f[1] == 0x91 && f[2] == data.len() + 7
                &&& holds_mac(f, 3, mac_in(d))
                &&& f[9] == 0x8B
                &&& f[10 + i] == data[i]
            }
            &&& !embeds_mac(d) ==> {
                &&& f.len() == data.len() + 4
                &&& f[0] == 0x78 && f[1] == 0x8B && f[2] == data.len()
                &&& f[3 + i] == data[i]
            }
        }),
{
    let data = effect_data(
        st.fx_id,
        st.brightness,
        st.cct,
        st.gm,
        st.hue,
        st.sat,
        st.fx_speed,
        st.fx_extra,
        st.fx_val2,
    );
    let mac = match d {
        Driver::Home => seq![0u8, 0, 0, 0, 0, 0],
        _ => mac_in(d),
    };
    assert(mac.len() == 6);
    law_effect_frames(mac, data, i);
}

/// A pixel state in colour replacement sends its active segments, in order: segment `k`
/// stands at bytes `3 * k` of the joined palettes, and no further segment is sent.
pub proof fn law_segments_on_the_wire(d: Driver, st: LightState, k: int)
    requires
        st.mode == Mode::Pixel,
        d !is Home,
        st.pixel_effect != 3 && st.pixel_effect != 4 && st.pixel_effect != 5 && st.pixel_effect
            != 7,
        0 <= k < st.seg_count <= 8,
    ensures
        ({
            let fs = d.frames(st);
            let sent = palettes_of(fs);
            &&& holds_mac(fs[0], 3, mac_in(d))
            &&& fs[0][12] == st.seg_count
            &&& sent.len() == 3 * st.seg_count
            &&& sent[3 * k] == st.segments[k].wire()[0]
            &&& sent[3 * k + 1] == st.segments[k].wire()[1]
            &&& sent[3 * k + 2] == st.segments[k].wire()[2]
            &&& fs[0][13] == st.pixel_speed
            &&& fs[0][14] == st.pixel_dir
            &&& st.brightness <= 100 ==> fs[0][11] == st.brightness
        }),
{
    let blocks = st.segments@.take(st.seg_count as int);
    let mac = mac_in(d);
    assert(mac.len() == 6);
    crate::protocol::laws::law_colour_replacement_sends_every_block(
        mac,
        blocks,
        st.brightness,
        st.pixel_effect,
        st.pixel_speed,
        st.pixel_dir,
        k,
    );
}

/// Power on the wire: the byte before the checksum is 1 for on and 2 for off.
pub proof fn law_power_on_the_wire(d: Driver, on: bool)
    ensures
        ({
            let f = d.power_frame(on);
            &&& f[f.len() - 2] == if on {
                1int
            } else {
                2int
            }
            &&& d is Classic ==> f.len() == 5 && f[0] == 0x78 && f[1] == 0x81 && f[2] == 1
            &&& d is Home ==> f.len() == 5 && f[0] == 0x7A && f[1] == 0x0A && f[2] == 1
            &&& d is Infinity ==> {
                &&& f.len() == 12
                &&& f[0] == 0x78 && f[1] == 0x8D && f[2] == 8
                &&& holds_mac(f, 3, mac_in(d))
                &&& f[9] == 0x81
            }
        }),
{
}

/// The driver a light gets: a named family is taken at its word, whatever the light is
/// called; under any other name a light called `nh-..` is a Home light and every other
/// one is classic. Only the command type 2 asks for MAC-embedded frames, and only a
/// profile with a tint channel for the longer white frame.
pub proof fn law_driver_choice(
    driver_cfg: Seq<char>,
    profile: Profile,
    mac: [u8; 6],
    name: Seq<char>,
    cmd_type: u8,
)
    ensures
        ({
            let d = resolved(driver_cfg, profile, mac, name, cmd_type);
            let nh = name.len() >= 3 && name[0] == 'n' && name[1] == 'h' && name[2] == '-';
            let named = driver_cfg == "classic"@ || driver_cfg == "infinity"@ || driver_cfg
                == "home"@;
            &&& d is Infinity <==> driver_cfg == "infinity"@
            &&& d is Home <==> driver_cfg == "home"@ || (!named && nh)
            &&& d is Classic <==> driver_cfg == "classic"@ || (!named && !nh)
            &&& d matches Driver::Infinity { mac: m } ==> m == mac
            &&& d matches Driver::Classic { supports_gm, mac: m, mac_frames } ==> {
                &&& m == mac
                &&& mac_frames <==> cmd_type == 2
                &&& supports_gm <==> profile == Profile::CctGm || profile == Profile::Full || profile
                    == Profile::Advanced
            }
        }),
{
    reveal_strlit("classic");
    reveal_strlit("infinity");
    reveal_strlit("home");
    reveal_strlit("nh-");
    assert("classic"@.len() != "infinity"@.len());
    assert("classic"@.len() != "home"@.len());
    assert("infinity"@.len() != "home"@.len());
    if name.len() >= 3 {
        assert(name.take(3)[0] == name[0] && name.take(3)[1] == name[1] && name.take(3)[2]
            == name[2]);
        if name[0] == 'n' && name[1] == 'h' && name[2] == '-' {
            assert(name.take(3) =~= "nh-"@);
        }
    }
}

/// A driver of the `0x78` families has the MAC it was made with, a Home driver none.
pub proof fn law_macs_of_drivers(d: Driver)
    ensures
        d is Home <==> d.mac_of() is None,
        d matches Driver::Classic { mac, .. } ==> d.mac_of() == Some(mac),
        d matches Driver::Infinity { mac } ==> d.mac_of() == Some(mac),
{
}

/// A Home brightness past 100 percent is sent as 100.
pub proof fn law_home_brightness_is_held(st: LightState)
    requires
        st.brightness > 100,
    ensures
        Driver::Home.frames(st) == Driver::Home.frames(LightState { brightness: 100, ..st }),
{
}

/// More than eight segments are sent as eight.
pub proof fn law_segments_are_held(d: Driver, st: LightState)
    requires
        st.mode == Mode::Pixel,
        st.seg_count > 8,
    ensures
        st.active_segments() == 8,
        d.frames(st) == d.frames(LightState { seg_count: 8, ..st }),
{
    let held = LightState { seg_count: 8, ..st };
    assert(held.active_segments() == st.active_segments());
}

} // verus!
