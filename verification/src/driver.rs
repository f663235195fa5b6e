//! The capability-aware driver: turns a `LightState` into the BLE frames of one
//! protocol family. It owns the model-dependent choices that the encoders do not
//! make.

use vstd::prelude::*;
use vstd::string::*;
use crate::profile::Profile;
use crate::protocol::{
    checksummed, classic, frames_of, gm_wire, hi, home, infinity, lo, min_of, pixel, sealed,
    LightState, Mode,
};
use crate::text::{chars_of, has_prefix, lower, same_text, starts_with, to_unicode_lower, unicode_lower};

pub mod laws;

verus! {

/// A bound driver for one physical light.
#[derive(Debug, Clone, Copy)]
pub enum Driver {
    /// Classic `0x78`. `supports_gm` selects the 4-byte white frame over the
    /// 2-byte one. With `mac_frames` the advanced modes (XY/RGBCW/FX) use the
    /// MAC-embedded frames, else the direct ones.
    Classic { supports_gm: bool, mac: [u8; 6], mac_frames: bool },
    /// Infinity `0x78` with the MAC embedded in every payload.
    Infinity { mac: [u8; 6] },
    /// Neewer Home `0x7A` (`NH-*`).
    Home,
}

/// Whether a profile carries a green/magenta channel.
pub open spec fn carries_gm(profile: Profile) -> bool {
    profile == Profile::CctGm || profile == Profile::Full || profile == Profile::Advanced
}

/// The driver of a config field and a BLE name in lower case: the three family
/// names choose directly; anything else infers Home from an `nh-` name and falls
/// back to classic.
pub open spec fn resolved(
    driver_cfg: Seq<char>,
    profile: Profile,
    mac: [u8; 6],
    lowered_name: Seq<char>,
    cmd_type: u8,
) -> Driver {
    let classic = Driver::Classic {
        supports_gm: carries_gm(profile),
        mac,
        mac_frames: cmd_type == 2,
    };
    if driver_cfg == "classic"@ {
        classic
    } else if driver_cfg == "infinity"@ {
        Driver::Infinity { mac }
    } else if driver_cfg == "home"@ {
        Driver::Home
    } else if has_prefix(lowered_name, "nh-"@) {
        Driver::Home
    } else {
        classic
    }
}

/// The white frame of a Home light for a state.
pub open spec fn home_white(st: LightState) -> Seq<u8> {
    let brr = (st.brightness * 10) as u16;
    sealed(
        seq![0x7Au8, 0x0C, 0x06, home::tens(brr), home::units(brr), st.cct, 0x00, 0x01, 0x00],
    )
}

/// The effect data a state asks for.
pub open spec fn state_effect(st: LightState) -> Seq<u8> {
    infinity::effect_data(
        st.fx_id,
        st.brightness,
        st.cct,
        st.gm,
        st.hue,
        st.sat,
        st.fx_speed,
        st.fx_extra,
        st.fx_val2,
    )
}

/// Hue and saturation of a state in the order the `0x78` family wants.
pub open spec fn hue_bytes(st: LightState) -> Seq<u8> {
    seq![lo(min_of(st.hue as int, 360)), hi(min_of(st.hue as int, 360)), st.sat]
}

/// Both xy coordinates of a state, little-endian.
pub open spec fn xy_bytes(st: LightState) -> Seq<u8> {
    seq![
        lo(min_of(st.x as int, 8000)),
        hi(min_of(st.x as int, 8000)),
        lo(min_of(st.y as int, 8000)),
        hi(min_of(st.y as int, 8000)),
        0x00u8,
    ]
}

/// The LED channels of a state, with the brightness in front.
pub open spec fn bank_bytes(st: LightState) -> Seq<u8> {
    seq![st.brightness, st.r, st.g, st.b, st.cw, st.ww, 0x00u8]
}

impl Driver {
    /// The MAC of the light, where the family uses one.
    pub open spec fn mac_of(self) -> Option<[u8; 6]> {
        match self {
            Driver::Classic { mac, .. } => Some(mac),
            Driver::Infinity { mac } => Some(mac),
            Driver::Home => None,
        }
    }

    /// The frames that realise a state, in send order. Home lights know white and
    /// colour only; every other mode becomes their white.
    pub open spec fn frames(self, st: LightState) -> Seq<Seq<u8>> {
        match self {
            Driver::Home => match st.mode {
                Mode::Hsi => {
                    let brr = (st.brightness * 10) as u16;
                    let h = min_of(st.hue as int, 360);
                    seq![
                        sealed(
                            seq![
                                0x7Au8,
                                0x0D,
                                0x00,
                                0x0A,
                                home::tens(brr),
                                home::units(brr),
                                0x01,
                                0x64,
                                hi(h),
                                lo(h),
                                st.sat,
                                0x00,
                                0x01,
                                0x00,
                            ],
                        ),
                    ]
                },
                _ => seq![home_white(st)],
            },
            Driver::Infinity { mac } => match st.mode {
                Mode::Cct => seq![
                    sealed(
                        seq![0x78u8, 0x90, 0x0B] + mac@ + seq![
                            0x87u8,
                            st.brightness,
                            st.cct,
                            gm_wire(st.gm),
                            0x04,
                        ],
                    ),
                ],
                Mode::Hsi => seq![
                    sealed(
                        seq![0x78u8, 0x8F, 0x0C] + mac@ + seq![0x86u8] + hue_bytes(st) + seq![
                            st.brightness,
                            0x00u8,
                        ],
                    ),
                ],
                _ => by_mac_frames(mac@, st),
            },
            Driver::Classic { supports_gm, mac, mac_frames } => match st.mode {
                Mode::Cct => seq![
                    if supports_gm {
                        sealed(
                            seq![0x78u8, 0x87, 0x04, st.brightness, st.cct, gm_wire(st.gm), 0x00],
                        )
                    } else {
                        sealed(seq![0x78u8, 0x87, 0x02, st.brightness, st.cct])
                    },
                ],
                Mode::Hsi => seq![
                    sealed(seq![0x78u8, 0x86, 0x04] + hue_bytes(st) + seq![st.brightness]),
                ],
                _ => if mac_frames || st.mode == Mode::Pixel {
                    by_mac_frames(mac@, st)
                } else {
                    direct_frames(st)
                },
            },
        }
    }

    /// Resolve a driver from the config `driver` field. `auto` (or anything but a
    /// family name) infers Home from an `NH-` BLE name, else falls back to
    /// classic. `cmd_type` 2 asks for MAC-embedded advanced-mode frames.
    pub fn resolve(
        driver_cfg: &str,
        profile: Profile,
        mac: [u8; 6],
        ble_name: &str,
        cmd_type: u8,
    ) -> (r: Driver)
        ensures
            r == resolved(driver_cfg@, profile, mac, unicode_lower(ble_name@), cmd_type),
            crate::text::ascii_only(ble_name@) ==> r == resolved(
                driver_cfg@,
                profile,
                mac,
                lower(ble_name@),
                cmd_type,
            ),
    {
        let lowered = to_unicode_lower(ble_name);
        Driver::resolve_lowered(driver_cfg, profile, mac, lowered.as_str(), cmd_type)
    }

    /// Resolve a driver for a BLE name that is in lower case already.
    pub fn resolve_lowered(
        driver_cfg: &str,
        profile: Profile,
        mac: [u8; 6],
        lowered_name: &str,
        cmd_type: u8,
    ) -> (r: Driver)
        ensures
            r == resolved(driver_cfg@, profile, mac, lowered_name@, cmd_type),
    {
        let supports_gm = matches!(profile, Profile::CctGm | Profile::Full | Profile::Advanced);
        let mac_frames = cmd_type == 2;
        if same_text(driver_cfg, "classic") {
            Driver::Classic { supports_gm, mac, mac_frames }
        } else if same_text(driver_cfg, "infinity") {
            Driver::Infinity { mac }
        } else if same_text(driver_cfg, "home") {
            Driver::Home
        } else {
            let name = chars_of(lowered_name);
            if starts_with(&name, "nh-") {
                Driver::Home
            } else {
                Driver::Classic { supports_gm, mac, mac_frames }
            }
        }
    }

    /// The power frame of the family.
    pub open spec fn power_frame(self, on: bool) -> Seq<u8> {
        let v: u8 = if on {
            0x01
        } else {
            0x02
        };
        match self {
            Driver::Classic { .. } => sealed(seq![0x78u8, 0x81, 0x01, v]),
            Driver::Infinity { mac } => sealed(
                seq![0x78u8, 0x8D, 0x08] + mac@ + seq![0x81u8, v],
            ),
            Driver::Home => sealed(seq![0x7Au8, 0x0A, 0x01, v]),
        }
    }

    /// Power on/off command bytes.
    pub fn power(&self, on: bool) -> (f: Vec<u8>)
        ensures
            f@ == self.power_frame(on),
            checksummed(f@),
    {
        match self {
            Driver::Classic { .. } => classic::power(on),
            Driver::Infinity { mac } => infinity::power(*mac, on),
            Driver::Home => home::power(on),
        }
    }

    /// The first frame that realises `st`. White and colour use the driver's own
    /// family; XY, RGBCW and FX use the MAC-embedded or the direct form, as the
    /// driver says; Home shows them as white. Pixel takes several frames, of which
    /// this is the parameter frame: see [`Driver::apply_frames`].
    pub fn apply(&self, st: &LightState) -> (f: Vec<u8>)
        ensures
            f@ == self.frames(*st)[0],
            checksummed(f@),
    {
        match st.mode {
            Mode::Cct => match self {
                Driver::Classic { supports_gm, .. } => {
                    if *supports_gm {
                        classic::cct4(st.brightness, st.cct, st.gm)
                    } else {
                        classic::cct2(st.brightness, st.cct)
                    }
                },
                Driver::Infinity { mac } => infinity::cct(*mac, st.brightness, st.cct, st.gm),
                Driver::Home => home::cct(st.brightness as u16 * 10, st.cct),
            },
            Mode::Hsi => match self {
                Driver::Classic { .. } => {
                    let f = classic::hsi(st.hue, st.sat, st.brightness);
                    assert(f@ =~= self.frames(*st)[0]) by {
                        assert(seq![0x78u8, 0x86, 0x04] + hue_bytes(*st) + seq![st.brightness]
                            =~= seq![
                            0x78u8,
                            0x86,
                            0x04,
                            lo(min_of(st.hue as int, 360)),
                            hi(min_of(st.hue as int, 360)),
                            st.sat,
                            st.brightness,
                        ]);
                    }
                    f
                },
                Driver::Infinity { mac } => {
                    let f = infinity::hsi(*mac, st.hue, st.sat, st.brightness);
                    assert(f@ =~= self.frames(*st)[0]) by {
                        assert(seq![0x78u8, 0x8F, 0x0C] + mac@ + seq![0x86u8] + hue_bytes(*st)
                            + seq![st.brightness, 0x00u8] =~= seq![0x78u8, 0x8F, 0x0C] + mac@
                            + seq![
                            0x86u8,
                            lo(min_of(st.hue as int, 360)),
                            hi(min_of(st.hue as int, 360)),
                            st.sat,
                            st.brightness,
                            0x00,
                        ]);
                    }
                    f
                },
                Driver::Home => home::hsi(st.brightness as u16 * 10, st.hue, st.sat),
            },
            Mode::Xy => match self {
                Driver::Classic { mac, mac_frames, .. } => if *mac_frames {
                    xy_by_mac(*mac, st)
                } else {
                    let f = classic::xy(st.brightness, st.x, st.y);
                    assert(seq![0x78u8, 0xB9, 0x06, st.brightness] + xy_bytes(*st) =~= seq![
                        0x78u8,
                        0xB9,
                        0x06,
                        st.brightness,
                        lo(min_of(st.x as int, 8000)),
                        hi(min_of(st.x as int, 8000)),
                        lo(min_of(st.y as int, 8000)),
                        hi(min_of(st.y as int, 8000)),
                        0x00,
                    ]);
                    f
                },
                Driver::Infinity { mac } => xy_by_mac(*mac, st),
                Driver::Home => home::cct(st.brightness as u16 * 10, st.cct),
            },
            Mode::Rgbcw => match self {
                Driver::Classic { mac, mac_frames, .. } => if *mac_frames {
                    rgbcw_by_mac(*mac, st)
                } else {
                    let f = classic::rgbcw(st.brightness, st.r, st.g, st.b, st.cw, st.ww, 0);
                    assert(seq![0x78u8, 0xA8, 0x07] + bank_bytes(*st) =~= seq![
                        0x78u8,
                        0xA8,
                        0x07,
                        st.brightness,
                        st.r,
                        st.g,
                        st.b,
                        st.cw,
                        st.ww,
                        0,
                    ]);
                    f
                },
                Driver::Infinity { mac } => rgbcw_by_mac(*mac, st),
                Driver::Home => home::cct(st.brightness as u16 * 10, st.cct),
            },
            Mode::Fx => match self {
                Driver::Classic { mac, mac_frames, .. } => if *mac_frames {
                    fx_by_mac(*mac, st)
                } else {
                    infinity::fx_direct(
                        st.fx_id,
                        st.brightness,
                        st.cct,
                        st.gm,
                        st.hue,
                        st.sat,
                        st.fx_speed,
                        st.fx_extra,
                        st.fx_val2,
                    )
                },
                Driver::Infinity { mac } => fx_by_mac(*mac, st),
                Driver::Home => home::cct(st.brightness as u16 * 10, st.cct),
            },
            Mode::Pixel => match self {
                Driver::Home => home::cct(st.brightness as u16 * 10, st.cct),
                Driver::Classic { mac, .. } => first_pixel_frame(*mac, st),
                Driver::Infinity { mac } => first_pixel_frame(*mac, st),
            },
        }
    }

    /// Every frame that realises `st`, in send order. Most modes are a single
    /// frame; pixel is a parameter frame and one or two palette frames.
    pub fn apply_frames(&self, st: &LightState) -> (r: Vec<Vec<u8>>)
        ensures
            frames_of(r@) == self.frames(*st),
            forall|i: int| 0 <= i < r@.len() ==> checksummed(#[trigger] r@[i]@),
    {
        if st.mode == Mode::Pixel {
            match self {
                Driver::Home => {},
                Driver::Classic { mac, .. } => {
                    return pixel_frames(*mac, st);
                },
                Driver::Infinity { mac } => {
                    return pixel_frames(*mac, st);
                },
            }
        }
        let f = self.apply(st);
        let r: Vec<Vec<u8>> = vec![f];
        assert(frames_of(r@) =~= self.frames(*st));
        r
    }

    /// The bound light's 6-byte MAC, if this driver family uses one.
    pub fn mac(&self) -> (r: Option<[u8; 6]>)
        ensures
            r == self.mac_of(),
    {
        match self {
            Driver::Classic { mac, .. } => Some(*mac),
            Driver::Infinity { mac } => Some(*mac),
            Driver::Home => None,
        }
    }

    /// The family's name.
    pub fn label(&self) -> (r: &'static str)
        ensures
            r@ == (match *self {
                Driver::Classic { .. } => "classic"@,
                Driver::Infinity { .. } => "infinity"@,
                Driver::Home => "home"@,
            }),
    {
        match self {
            Driver::Classic { .. } => "classic",
            Driver::Infinity { .. } => "infinity",
            Driver::Home => "home",
        }
    }
}

/// The advanced modes in their MAC-embedded form.
pub open spec fn by_mac_frames(mac: Seq<u8>, st: LightState) -> Seq<Seq<u8>> {
    match st.mode {
        Mode::Xy => seq![
            sealed(seq![0x78u8, 0xB7, 0x0C] + mac + seq![st.brightness] + xy_bytes(st)),
        ],
        Mode::Rgbcw => seq![sealed(seq![0x78u8, 0xA9, 0x0E] + mac + seq![0xA8u8] + bank_bytes(st))],
        Mode::Fx => seq![infinity::fx_frame(mac, state_effect(st))],
        _ => pixel::paint_frames(
            mac,
            st.segments@.take(st.active_segments()),
            st.brightness,
            st.pixel_effect,
            st.pixel_speed,
            st.pixel_dir,
        ),
    }
}

/// The advanced modes in their direct form.
pub open spec fn direct_frames(st: LightState) -> Seq<Seq<u8>> {
    match st.mode {
        Mode::Xy => seq![sealed(seq![0x78u8, 0xB9, 0x06, st.brightness] + xy_bytes(st))],
        Mode::Rgbcw => seq![sealed(seq![0x78u8, 0xA8, 0x07] + bank_bytes(st))],
        _ => seq![infinity::fx_direct_frame(state_effect(st))],
    }
}

fn xy_by_mac(mac: [u8; 6], st: &LightState) -> (f: Vec<u8>)
    requires
        st.mode == Mode::Xy,
    ensures
        f@ == by_mac_frames(mac@, *st)[0],
        checksummed(f@),
{
    let f = classic::xy_mac(mac, st.brightness, st.x, st.y);
    assert(seq![0x78u8, 0xB7, 0x0C] + mac@ + seq![st.brightness] + xy_bytes(*st) =~= seq![
        0x78u8,
        0xB7,
        0x0C,
    ] + mac@ + seq![
        st.brightness,
        lo(min_of(st.x as int, 8000)),
        hi(min_of(st.x as int, 8000)),
        lo(min_of(st.y as int, 8000)),
        hi(min_of(st.y as int, 8000)),
        0x00,
    ]);
    f
}

fn rgbcw_by_mac(mac: [u8; 6], st: &LightState) -> (f: Vec<u8>)
    requires
        st.mode == Mode::Rgbcw,
    ensures
        f@ == by_mac_frames(mac@, *st)[0],
        checksummed(f@),
{
    let f = classic::rgbcw_mac(mac, st.brightness, st.r, st.g, st.b, st.cw, st.ww, 0);
    assert(seq![0x78u8, 0xA9, 0x0E] + mac@ + seq![0xA8u8] + bank_bytes(*st) =~= seq![
        0x78u8,
        0xA9,
        0x0E,
    ] + mac@ + seq![0xA8u8, st.brightness, st.r, st.g, st.b, st.cw, st.ww, 0]);
    f
}

fn fx_by_mac(mac: [u8; 6], st: &LightState) -> (f: Vec<u8>)
    requires
        st.mode == Mode::Fx,
    ensures
        f@ == by_mac_frames(mac@, *st)[0],
        checksummed(f@),
{
    infinity::fx(
        mac,
        st.fx_id,
        st.brightness,
        st.cct,
        st.gm,
        st.hue,
        st.sat,
        st.fx_speed,
        st.fx_extra,
        st.fx_val2,
    )
}

fn pixel_frames(mac: [u8; 6], st: &LightState) -> (r: Vec<Vec<u8>>)
    requires
        st.mode == Mode::Pixel,
    ensures
        frames_of(r@) == by_mac_frames(mac@, *st),
        forall|i: int| 0 <= i < r@.len() ==> checksummed(#[trigger] r@[i]@),
{
    pixel::paint(
        mac,
        st.pixel_blocks(),
        st.brightness,
        st.pixel_effect,
        st.pixel_speed,
        st.pixel_dir,
    )
}

fn first_pixel_frame(mac: [u8; 6], st: &LightState) -> (f: Vec<u8>)
    requires
        st.mode == Mode::Pixel,
    ensures
        f@ == by_mac_frames(mac@, *st)[0],
        checksummed(f@),
{
    let mut all = pixel_frames(mac, st);
    assert(frames_of(all@).len() >= 2);
    let ghost before = all@;
    assert(frames_of(before)[0] == before[0]@);
    let f = all.swap_remove(0);
    f
}

/// A state becomes one frame in every mode but pixel, and two or three there.
pub proof fn law_frame_counts(d: Driver, st: LightState)
    ensures
        st.mode != Mode::Pixel ==> d.frames(st).len() == 1,
        st.mode == Mode::Pixel && d !is Home ==> 2 <= d.frames(st).len() <= 3,
        d is Home ==> d.frames(st).len() == 1,
{
}

/// White and colour do not depend on the choice between MAC-embedded and direct
/// frames.
pub proof fn law_white_and_colour_ignore_the_frame_split(
    supports_gm: bool,
    mac: [u8; 6],
    st: LightState,
)
    requires
        st.mode == Mode::Cct || st.mode == Mode::Hsi,
    ensures
        (Driver::Classic { supports_gm, mac, mac_frames: true }).frames(st) == (Driver::Classic {
            supports_gm,
            mac,
            mac_frames: false,
        }).frames(st),
{
}

} // verus!
