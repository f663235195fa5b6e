//! The one-frame probe of the `test` command: a colon-separated text that names a
//! frame and its values, such as `cct:5600:40` or `pixel:0,240:1:40`.
//!
//! Every value is range-checked at both ends before a frame is built, so that what is
//! reported is what goes on the wire.

use vstd::prelude::*;
use vstd::string::*;
use crate::commands::probe::{
    fx_preset, fx_preset_direct, once, paced, pixel_effect_frames, pixel_effect_name,
    pixel_effect_test, preset_data, steps_of, write_once, write_paced, Step, StepModel,
};
use crate::config::hex_digits;
use crate::parse::{
    fields, parse_signed_byte, parse_unsigned, signed_byte, split, texts, unsigned_upto,
};
use crate::protocol::infinity::{fx_direct_frame, fx_frame};
use crate::protocol::pixel::{paint, paint_frames, rendered, rendered_effect, Block};
use crate::protocol::{classic, frames_of, gm_wire, hi, lo, sealed};
use crate::text::{
    chars_of, dec, hex_digit_value, hex_value, push_dec, push_signed_dec, push_spaced_hex,
    signed_dec, spaced_hex, spells, trim, trimmed,
};

pub mod laws;

verus! {

broadcast use vstd::string::group_string_axioms;

/// A value that a probe text gives.
#[derive(Debug, Clone, Copy, PartialEq, Eq, Structural)]
pub enum Arg {
    Kelvin,
    Bri,
    Gm,
    Hue,
    Sat,
    X,
    Y,
    Id,
    Hues,
    Effect,
    Speed,
    Red,
    Green,
    Blue,
    CoolWhite,
    WarmWhite,
}

/// Why a probe text was refused.
#[derive(Debug, Clone, Copy, PartialEq, Eq, Structural)]
pub enum SetError {
    /// A value is missing.
    Missing(Arg),
    /// A value is not a number.
    NotANumber(Arg),
    /// A number is out of its range.
    OutOfRange { what: Arg, lowest: u32, highest: u32, got: u32 },
    /// The tint is not within -50 to 50.
    GmOutOfRange { gm: i8 },
    /// The frame is not an even number of hexadecimal digits.
    BadRaw,
    /// There is no such kind of frame.
    UnknownKind,
}

/// What a probe text asks for.
pub enum SetModel {
    WarmDim,
    Cct { kelvin: u32, bri: u8 },
    CctGm { kelvin: u32, gm: i8, bri: u8, form: u8 },
    Hsi { hue: u16, sat: u8, bri: u8 },
    Xy { by_mac: bool, x: u16, y: u16, bri: u8 },
    Fx { by_mac: bool, id: u8, bri: u8 },
    Scene { id: u8, bri: u8 },
    Pixel { hues: Seq<u16>, effect: u8, speed: u8 },
    PixelEffect { id: u8 },
    Rgbcw { by_mac: bool, r: u8, g: u8, b: u8, cw: u8, ww: u8, bri: u8 },
    Raw { bytes: Seq<u8> },
}

/// What a probe text asks for.
#[derive(Debug, Clone)]
pub enum SetSpec {
    /// A dim warm white: the way out of any effect.
    WarmDim,
    /// White, two-byte form.
    Cct { kelvin: u32, bri: u8 },
    /// White with tint, in its three-, four- or five-byte form.
    CctGm { kelvin: u32, gm: i8, bri: u8, form: u8 },
    /// Colour.
    Hsi { hue: u16, sat: u8, bri: u8 },
    /// A CIE coordinate.
    Xy { by_mac: bool, x: u16, y: u16, bri: u8 },
    /// A built-in effect.
    Fx { by_mac: bool, id: u8, bri: u8 },
    /// One of the nine old scenes.
    Scene { id: u8, bri: u8 },
    /// A palette.
    Pixel { hues: Vec<u16>, effect: u8, speed: u8 },
    /// A pixel effect with its default values.
    PixelEffect { id: u8 },
    /// The five LED banks.
    Rgbcw { by_mac: bool, r: u8, g: u8, b: u8, cw: u8, ww: u8, bri: u8 },
    /// A frame as it stands.
    Raw { bytes: Vec<u8> },
}

impl View for SetSpec {
    type V = SetModel;

    open spec fn view(&self) -> SetModel {
        match *self {
            SetSpec::WarmDim => SetModel::WarmDim,
            SetSpec::Cct { kelvin, bri } => SetModel::Cct { kelvin, bri },
            SetSpec::CctGm { kelvin, gm, bri, form } => SetModel::CctGm { kelvin, gm, bri, form },
            SetSpec::Hsi { hue, sat, bri } => SetModel::Hsi { hue, sat, bri },
            SetSpec::Xy { by_mac, x, y, bri } => SetModel::Xy { by_mac, x, y, bri },
            SetSpec::Fx { by_mac, id, bri } => SetModel::Fx { by_mac, id, bri },
            SetSpec::Scene { id, bri } => SetModel::Scene { id, bri },
            SetSpec::Pixel { hues, effect, speed } => SetModel::Pixel {
                hues: hues@,
                effect,
                speed,
            },
            SetSpec::PixelEffect { id } => SetModel::PixelEffect { id },
            SetSpec::Rgbcw { by_mac, r, g, b, cw, ww, bri } => SetModel::Rgbcw {
                by_mac,
                r,
                g,
                b,
                cw,
                ww,
                bri,
            },
            SetSpec::Raw { bytes } => SetModel::Raw { bytes: bytes@ },
        }
    }
}

/// The number at a position of a probe text, within a range.
pub open spec fn number(
    parts: Seq<Seq<char>>,
    at: int,
    what: Arg,
    lowest: u32,
    highest: u32,
) -> Result<u32, SetError> {
    if at >= parts.len() {
        Err(SetError::Missing(what))
    } else {
        match unsigned_upto(parts[at], u32::MAX as u64) {
            None => Err(SetError::NotANumber(what)),
            Some(v) => if lowest <= v <= highest {
                Ok(v as u32)
            } else {
                Err(SetError::OutOfRange { what, lowest, highest, got: v as u32 })
            },
        }
    }
}

/// The byte at a position of a probe text, or a default where it is left out.
pub open spec fn optional_byte(
    parts: Seq<Seq<char>>,
    at: int,
    what: Arg,
    default: u8,
) -> Result<u8, SetError> {
    if at >= parts.len() {
        Ok(default)
    } else {
        match unsigned_upto(parts[at], 255) {
            None => Err(SetError::NotANumber(what)),
            Some(v) => Ok(v as u8),
        }
    }
}

/// The tint at a position of a probe text.
pub open spec fn tint(parts: Seq<Seq<char>>, at: int) -> Result<i8, SetError> {
    if at >= parts.len() {
        Err(SetError::Missing(Arg::Gm))
    } else {
        match signed_byte(parts[at]) {
            None => Err(SetError::NotANumber(Arg::Gm)),
            Some(v) => if -50 <= v <= 50 {
                Ok(v)
            } else {
                Err(SetError::GmOutOfRange { gm: v })
            },
        }
    }
}

/// The hues of a palette; the first one that is no hue decides.
pub open spec fn hue_list(parts: Seq<Seq<char>>) -> Result<Seq<u16>, SetError>
    decreases parts.len(),
{
    if parts.len() == 0 {
        Ok(Seq::empty())
    } else {
        match hue_list(parts.drop_last()) {
            Err(e) => Err(e),
            Ok(before) => match unsigned_upto(trimmed(parts.last()), 65535) {
                None => Err(SetError::NotANumber(Arg::Hue)),
                Some(v) => if v <= 360 {
                    Ok(before.push(v as u16))
                } else {
                    Err(
                        SetError::OutOfRange {
                            what: Arg::Hue,
                            lowest: 0,
                            highest: 360,
                            got: v as u32,
                        },
                    )
                },
            },
        }
    }
}

/// The bytes that pairs of hexadecimal digits write.
pub open spec fn paired(digits: Seq<u8>) -> Seq<u8> {
    Seq::new(digits.len() / 2, |i: int| (digits[2 * i] * 16 + digits[2 * i + 1]) as u8)
}

/// The hexadecimal digits of the parts from `from` on.
pub open spec fn digits_of_parts(parts: Seq<Seq<char>>, from: int) -> Seq<u8>
    decreases parts.len() - from,
{
    if from >= parts.len() {
        Seq::empty()
    } else {
        hex_digits(parts[from]) + digits_of_parts(parts, from + 1)
    }
}

/// A kind of frame.
#[derive(Debug, Clone, Copy, PartialEq, Eq, Structural)]
pub enum Kind {
    WarmDim,
    Cct,
    CctGm,
    Hsi,
    Xy,
    XyDirect,
    FxDirect,
    Scene,
    Fx,
    Pixel,
    PixFx,
    Rgbcw,
    RgbcwMac,
    Raw,
}

/// The kind of frame with a name.
pub open spec fn kind_called(s: Seq<char>) -> Option<Kind> {
    if s == "warmdim"@ {
        Some(Kind::WarmDim)
    } else if s == "cct"@ {
        Some(Kind::Cct)
    } else if s == "cctgm"@ {
        Some(Kind::CctGm)
    } else if s == "hsi"@ {
        Some(Kind::Hsi)
    } else if s == "xy"@ {
        Some(Kind::Xy)
    } else if s == "xydirect"@ {
        Some(Kind::XyDirect)
    } else if s == "fxdirect"@ {
        Some(Kind::FxDirect)
    } else if s == "scene"@ {
        Some(Kind::Scene)
    } else if s == "fx"@ {
        Some(Kind::Fx)
    } else if s == "pixel"@ {
        Some(Kind::Pixel)
    } else if s == "pixfx"@ {
        Some(Kind::PixFx)
    } else if s == "rgbcw"@ {
        Some(Kind::Rgbcw)
    } else if s == "rgbcwmac"@ {
        Some(Kind::RgbcwMac)
    } else if s == "raw"@ {
        Some(Kind::Raw)
    } else {
        None
    }
}

fn kind_of(s: &[char]) -> (r: Option<Kind>)
    ensures
        r == kind_called(s@),
{
    if spells(s, "warmdim") {
        Some(Kind::WarmDim)
    } else if spells(s, "cct") {
        Some(Kind::Cct)
    } else if spells(s, "cctgm") {
        Some(Kind::CctGm)
    } else if spells(s, "hsi") {
        Some(Kind::Hsi)
    } else if spells(s, "xy") {
        Some(Kind::Xy)
    } else if spells(s, "xydirect") {
        Some(Kind::XyDirect)
    } else if spells(s, "fxdirect") {
        Some(Kind::FxDirect)
    } else if spells(s, "scene") {
        Some(Kind::Scene)
    } else if spells(s, "fx") {
        Some(Kind::Fx)
    } else if spells(s, "pixel") {
        Some(Kind::Pixel)
    } else if spells(s, "pixfx") {
        Some(Kind::PixFx)
    } else if spells(s, "rgbcw") {
        Some(Kind::Rgbcw)
    } else if spells(s, "rgbcwmac") {
        Some(Kind::RgbcwMac)
    } else if spells(s, "raw") {
        Some(Kind::Raw)
    } else {
        None
    }
}

/// A white of two values.
pub open spec fn read_cct(p: Seq<Seq<char>>) -> Result<SetModel, SetError> {
    match number(p, 1, Arg::Kelvin, 0, 25_500) {
        Err(e) => Err(e),
        Ok(kelvin) => match number(p, 2, Arg::Bri, 0, 100) {
            Err(e) => Err(e),
            Ok(bri) => Ok(SetModel::Cct { kelvin, bri: bri as u8 }),
        },
    }
}

/// A white with tint. The fifth field asks for the three- or the five-byte form.
pub open spec fn read_cctgm(p: Seq<Seq<char>>) -> Result<SetModel, SetError> {
    match number(p, 1, Arg::Kelvin, 0, 25_500) {
        Err(e) => Err(e),
        Ok(kelvin) => match number(p, 3, Arg::Bri, 0, 100) {
            Err(e) => Err(e),
            Ok(bri) => match tint(p, 2) {
                Err(e) => Err(e),
                Ok(gm) => Ok(
                    SetModel::CctGm {
                        kelvin,
                        gm,
                        bri: bri as u8,
                        form: if p.len() > 4 && p[4] == "3"@ {
                            3
                        } else if p.len() > 4 && p[4] == "5"@ {
                            5
                        } else {
                            4
                        },
                    },
                ),
            },
        },
    }
}

/// A colour.
pub open spec fn read_hsi(p: Seq<Seq<char>>) -> Result<SetModel, SetError> {
    match number(p, 1, Arg::Hue, 0, 360) {
        Err(e) => Err(e),
        Ok(hue) => match number(p, 2, Arg::Sat, 0, 100) {
            Err(e) => Err(e),
            Ok(sat) => match number(p, 3, Arg::Bri, 0, 100) {
                Err(e) => Err(e),
                Ok(bri) => Ok(
                    SetModel::Hsi { hue: hue as u16, sat: sat as u8, bri: bri as u8 },
                ),
            },
        },
    }
}

/// A CIE coordinate.
pub open spec fn read_xy(p: Seq<Seq<char>>, by_mac: bool) -> Result<SetModel, SetError> {
    match number(p, 1, Arg::X, 0, 8000) {
        Err(e) => Err(e),
        Ok(x) => match number(p, 2, Arg::Y, 0, 8000) {
            Err(e) => Err(e),
            Ok(y) => match number(p, 3, Arg::Bri, 0, 100) {
                Err(e) => Err(e),
                Ok(bri) => Ok(
                    SetModel::Xy { by_mac, x: x as u16, y: y as u16, bri: bri as u8 },
                ),
            },
        },
    }
}

/// A built-in effect.
pub open spec fn read_fx(p: Seq<Seq<char>>, by_mac: bool) -> Result<SetModel, SetError> {
    match number(p, 1, Arg::Id, 1, 18) {
        Err(e) => Err(e),
        Ok(id) => match number(p, 2, Arg::Bri, 0, 100) {
            Err(e) => Err(e),
            Ok(bri) => Ok(SetModel::Fx { by_mac, id: id as u8, bri: bri as u8 }),
        },
    }
}

/// An old scene.
pub open spec fn read_scene(p: Seq<Seq<char>>) -> Result<SetModel, SetError> {
    match number(p, 1, Arg::Id, 1, 9) {
        Err(e) => Err(e),
        Ok(id) => match number(p, 2, Arg::Bri, 0, 100) {
            Err(e) => Err(e),
            Ok(bri) => Ok(SetModel::Scene { id: id as u8, bri: bri as u8 }),
        },
    }
}

/// A palette.
pub open spec fn read_pixel(p: Seq<Seq<char>>) -> Result<SetModel, SetError> {
    if p.len() < 2 {
        Err(SetError::Missing(Arg::Hues))
    } else {
        match hue_list(fields(p[1], ',')) {
            Err(e) => Err(e),
            Ok(hues) => match number(p, 2, Arg::Effect, 1, 10) {
                Err(e) => Err(e),
                Ok(effect) => match number(p, 3, Arg::Speed, 0, 100) {
                    Err(e) => Err(e),
                    Ok(speed) => Ok(
                        SetModel::Pixel { hues, effect: effect as u8, speed: speed as u8 },
                    ),
                },
            },
        }
    }
}

/// A pixel effect with its default values.
pub open spec fn read_pixfx(p: Seq<Seq<char>>) -> Result<SetModel, SetError> {
    match number(p, 1, Arg::Effect, 1, 10) {
        Err(e) => Err(e),
        Ok(id) => Ok(SetModel::PixelEffect { id: id as u8 }),
    }
}

/// The three values that the LED banks must be given, then the three that may be
/// left out.
pub open spec fn read_rgbcw(p: Seq<Seq<char>>, by_mac: bool) -> Result<SetModel, SetError> {
    match number(p, 1, Arg::Red, 0, 255) {
        Err(e) => Err(e),
        Ok(r) => match number(p, 2, Arg::Green, 0, 255) {
            Err(e) => Err(e),
            Ok(g) => match number(p, 3, Arg::Blue, 0, 255) {
                Err(e) => Err(e),
                Ok(b) => match optional_byte(p, 4, Arg::CoolWhite, 0) {
                    Err(e) => Err(e),
                    Ok(cw) => match optional_byte(p, 5, Arg::WarmWhite, 0) {
                        Err(e) => Err(e),
                        Ok(ww) => match optional_byte(p, 6, Arg::Bri, 100) {
                            Err(e) => Err(e),
                            Ok(bri) => if bri > 100 {
                                Err(
                                    SetError::OutOfRange {
                                        what: Arg::Bri,
                                        lowest: 0,
                                        highest: 100,
                                        got: bri as u32,
                                    },
                                )
                            } else {
                                Ok(
                                    SetModel::Rgbcw {
                                        by_mac,
                                        r: r as u8,
                                        g: g as u8,
                                        b: b as u8,
                                        cw,
                                        ww,
                                        bri,
                                    },
                                )
                            },
                        },
                    },
                },
            },
        },
    }
}

/// A frame as it stands: an even number of hexadecimal digits, at least two.
pub open spec fn read_raw(p: Seq<Seq<char>>) -> Result<SetModel, SetError> {
    let digits = digits_of_parts(p, 1);
    if digits.len() == 0 || digits.len() % 2 != 0 {
        Err(SetError::BadRaw)
    } else {
        Ok(SetModel::Raw { bytes: paired(digits) })
    }
}

/// What a probe text asks for.
pub open spec fn asked(spec: Seq<char>) -> Result<SetModel, SetError> {
    let p = fields(spec, ':');
    match kind_called(p[0]) {
        None => Err(SetError::UnknownKind),
        Some(kind) => match kind {
            Kind::WarmDim => Ok(SetModel::WarmDim),
            Kind::Cct => read_cct(p),
            Kind::CctGm => read_cctgm(p),
            Kind::Hsi => read_hsi(p),
            Kind::Xy => read_xy(p, true),
            Kind::XyDirect => read_xy(p, false),
            Kind::FxDirect => read_fx(p, false),
            Kind::Scene => read_scene(p),
            Kind::Fx => read_fx(p, true),
            Kind::Pixel => read_pixel(p),
            Kind::PixFx => read_pixfx(p),
            Kind::Rgbcw => read_rgbcw(p, false),
            Kind::RgbcwMac => read_rgbcw(p, true),
            Kind::Raw => read_raw(p),
        },
    }
}

/// Whether a reading is the one that a specification gives.
pub open spec fn agrees(r: Result<SetSpec, SetError>, with: Result<SetModel, SetError>) -> bool {
    match r {
        Ok(set) => with == Ok::<SetModel, SetError>(set@),
        Err(e) => with == Err::<SetModel, SetError>(e),
    }
}

fn read_number(
    parts: &[Vec<char>],
    at: usize,
    what: Arg,
    lowest: u32,
    highest: u32,
) -> (r: Result<u32, SetError>)
    ensures
        r == number(texts(parts@), at as int, what, lowest, highest),
{
    if at >= parts.len() {
        return Err(SetError::Missing(what));
    }
    assert(texts(parts@)[at as int] == parts@[at as int]@);
    match parse_unsigned(&parts[at], u32::MAX as u64) {
        None => Err(SetError::NotANumber(what)),
        Some(v) => if lowest as u64 <= v && v <= highest as u64 {
            Ok(v as u32)
        } else {
            Err(SetError::OutOfRange { what, lowest, highest, got: v as u32 })
        },
    }
}

fn read_optional(parts: &[Vec<char>], at: usize, what: Arg, default: u8) -> (r: Result<
    u8,
    SetError,
>)
    ensures
        r == optional_byte(texts(parts@), at as int, what, default),
{
    if at >= parts.len() {
        return Ok(default);
    }
    assert(texts(parts@)[at as int] == parts@[at as int]@);
    match parse_unsigned(&parts[at], 255) {
        None => Err(SetError::NotANumber(what)),
        Some(v) => Ok(v as u8),
    }
}

fn read_tint(parts: &[Vec<char>], at: usize) -> (r: Result<i8, SetError>)
    ensures
        r == tint(texts(parts@), at as int),
{
    if at >= parts.len() {
        return Err(SetError::Missing(Arg::Gm));
    }
    assert(texts(parts@)[at as int] == parts@[at as int]@);
    match parse_signed_byte(&parts[at]) {
        None => Err(SetError::NotANumber(Arg::Gm)),
        Some(v) => if -50 <= v && v <= 50 {
            Ok(v)
        } else {
            Err(SetError::GmOutOfRange { gm: v })
        },
    }
}

/// A list of hues that has a wrong one in its beginning is wrong in the same way.
proof fn lemma_hue_error(parts: Seq<Seq<char>>, n: int)
    requires
        0 <= n <= parts.len(),
        hue_list(parts.take(n)) is Err,
    ensures
        hue_list(parts) == hue_list(parts.take(n)),
    decreases parts.len() - n,
{
    if n < parts.len() {
        assert(parts.take(n + 1).drop_last() == parts.take(n));
        lemma_hue_error(parts, n + 1);
    } else {
        assert(parts.take(n) == parts);
    }
}

fn read_hues(list: &[char]) -> (r: Result<Vec<u16>, SetError>)
    ensures
        match r {
            Ok(hues) => hue_list(fields(list@, ',')) == Ok::<Seq<u16>, SetError>(hues@),
            Err(e) => hue_list(fields(list@, ',')) == Err::<Seq<u16>, SetError>(e),
        },
{
    let parts = split(list, ',');
    let ghost all = fields(list@, ',');
    let mut hues: Vec<u16> = Vec::new();
    let mut i: usize = 0;
    while i < parts.len()
        invariant
            i <= parts@.len(),
            all == fields(list@, ','),
            all == texts(parts@),
            hue_list(all.take(i as int)) == Ok::<Seq<u16>, SetError>(hues@),
        decreases parts@.len() - i,
    {
        let ghost upto = all.take(i + 1);
        proof {
            assert(upto.drop_last() == all.take(i as int));
            assert(upto.last() == parts@[i as int]@);
            if hue_list(upto) is Err {
                lemma_hue_error(all, i + 1);
            }
        }
        match parse_unsigned(trim(&parts[i]), 65535) {
            None => {
                return Err(SetError::NotANumber(Arg::Hue));
            },
            Some(v) => {
                if v > 360 {
                    return Err(
                        SetError::OutOfRange {
                            what: Arg::Hue,
                            lowest: 0,
                            highest: 360,
                            got: v as u32,
                        },
                    );
                }
                hues.push(v as u16);
            },
        }
        i += 1;
    }
    assert(all.take(i as int) == all);
    Ok(hues)
}

proof fn lemma_hex_digits_add(a: Seq<char>, c: char)
    ensures
        hex_digits(a.push(c)) == match hex_digit_value(c) {
            Some(d) => hex_digits(a).push(d),
            None => hex_digits(a),
        },
{
    assert(a.push(c).drop_last() == a);
}

proof fn lemma_digits_bound(s: Seq<char>)
    ensures
        forall|i: int| 0 <= i < hex_digits(s).len() ==> (#[trigger] hex_digits(s)[i]) < 16,
    decreases s.len(),
{
    if s.len() > 0 {
        lemma_digits_bound(s.drop_last());
        assert forall|i: int| 0 <= i < hex_digits(s).len() implies (#[trigger] hex_digits(s)[i])
            < 16 by {
            if i < hex_digits(s.drop_last()).len() {
                assert(hex_digits(s)[i] == hex_digits(s.drop_last())[i]);
            }
        }
    }
}

fn push_hex_digits(out: &mut Vec<u8>, s: &[char])
    requires
        forall|i: int| 0 <= i < old(out)@.len() ==> (#[trigger] old(out)@[i]) < 16,
    ensures
        final(out)@ == old(out)@ + hex_digits(s@),
        forall|i: int| 0 <= i < final(out)@.len() ==> (#[trigger] final(out)@[i]) < 16,
{
    let mut i: usize = 0;
    assert(out@ =~= old(out)@ + hex_digits(s@.take(0)));
    while i < s.len()
        invariant
            i <= s@.len(),
            out@ == old(out)@ + hex_digits(s@.take(i as int)),
        decreases s@.len() - i,
    {
        proof {
            assert(s@.take(i + 1) == s@.take(i as int).push(s@[i as int]));
            lemma_hex_digits_add(s@.take(i as int), s@[i as int]);
        }
        if let Some(d) = hex_value(s[i]) {
            out.push(d);
        }
        i += 1;
        assert(out@ =~= old(out)@ + hex_digits(s@.take(i as int)));
    }
    assert(s@.take(i as int) == s@);
    proof {
        lemma_digits_bound(s@);
    }
}

fn raw_digits(parts: &[Vec<char>]) -> (r: Vec<u8>)
    requires
        parts@.len() > 0,
    ensures
        r@ == digits_of_parts(texts(parts@), 1),
        forall|i: int| 0 <= i < r@.len() ==> (#[trigger] r@[i]) < 16,
{
    let ghost all = texts(parts@);
    let mut digits: Vec<u8> = Vec::new();
    let mut i: usize = 1;
    while i < parts.len()
        invariant
            1 <= i <= parts@.len(),
            all == texts(parts@),
            digits@ + digits_of_parts(all, i as int) == digits_of_parts(all, 1),
            forall|k: int| 0 <= k < digits@.len() ==> (#[trigger] digits@[k]) < 16,
        decreases parts@.len() - i,
    {
        let ghost before = digits@;
        push_hex_digits(&mut digits, &parts[i]);
        assert(all[i as int] == parts@[i as int]@);
        assert(digits@ + digits_of_parts(all, i + 1) =~= before + digits_of_parts(all, i as int));
        i += 1;
    }
    assert(digits@ + Seq::<u8>::empty() =~= digits@);
    digits
}

fn pair_digits(digits: &[u8]) -> (r: Vec<u8>)
    requires
        forall|i: int| 0 <= i < digits@.len() ==> (#[trigger] digits@[i]) < 16,
        digits@.len() % 2 == 0,
    ensures
        r@ == paired(digits@),
{
    let mut bytes: Vec<u8> = Vec::new();
    let mut i: usize = 0;
    while i + 1 < digits.len()
        invariant
            i <= digits@.len(),
            i == 2 * bytes@.len(),
            digits@.len() % 2 == 0,
            forall|k: int| 0 <= k < digits@.len() ==> (#[trigger] digits@[k]) < 16,
            forall|k: int| 0 <= k < bytes@.len() ==> (#[trigger] bytes@[k]) == paired(digits@)[k],
        decreases digits@.len() - i,
    {
        assert(digits@[i as int] < 16 && digits@[i + 1] < 16);
        bytes.push(digits[i] * 16 + digits[i + 1]);
        i += 2;
    }
    assert(bytes@ =~= paired(digits@));
    bytes
}

fn cct_of(p: &[Vec<char>]) -> (r: Result<SetSpec, SetError>)
    ensures
        agrees(r, read_cct(texts(p@))),
{
    match read_number(p, 1, Arg::Kelvin, 0, 25_500) {
        Err(e) => Err(e),
        Ok(kelvin) => match read_number(p, 2, Arg::Bri, 0, 100) {
            Err(e) => Err(e),
            Ok(bri) => Ok(SetSpec::Cct { kelvin, bri: bri as u8 }),
        },
    }
}

fn cctgm_of(p: &[Vec<char>]) -> (r: Result<SetSpec, SetError>)
    ensures
        agrees(r, read_cctgm(texts(p@))),
{
    match read_number(p, 1, Arg::Kelvin, 0, 25_500) {
        Err(e) => Err(e),
        Ok(kelvin) => match read_number(p, 3, Arg::Bri, 0, 100) {
            Err(e) => Err(e),
            Ok(bri) => match read_tint(p, 2) {
                Err(e) => Err(e),
                Ok(gm) => {
                    let form: u8 = if p.len() > 4 && spells(&p[4], "3") {
                        3
                    } else if p.len() > 4 && spells(&p[4], "5") {
                        5
                    } else {
                        4
                    };
                    Ok(SetSpec::CctGm { kelvin, gm, bri: bri as u8, form })
                },
            },
        },
    }
}

fn hsi_of(p: &[Vec<char>]) -> (r: Result<SetSpec, SetError>)
    ensures
        agrees(r, read_hsi(texts(p@))),
{
    match read_number(p, 1, Arg::Hue, 0, 360) {
        Err(e) => Err(e),
        Ok(hue) => match read_number(p, 2, Arg::Sat, 0, 100) {
            Err(e) => Err(e),
            Ok(sat) => match read_number(p, 3, Arg::Bri, 0, 100) {
                Err(e) => Err(e),
                Ok(bri) => Ok(
                    SetSpec::Hsi { hue: hue as u16, sat: sat as u8, bri: bri as u8 },
                ),
            },
        },
    }
}

fn xy_of(p: &[Vec<char>], by_mac: bool) -> (r: Result<SetSpec, SetError>)
    ensures
        agrees(r, read_xy(texts(p@), by_mac)),
{
    match read_number(p, 1, Arg::X, 0, 8000) {
        Err(e) => Err(e),
        Ok(x) => match read_number(p, 2, Arg::Y, 0, 8000) {
            Err(e) => Err(e),
            Ok(y) => match read_number(p, 3, Arg::Bri, 0, 100) {
                Err(e) => Err(e),
                Ok(bri) => Ok(
                    SetSpec::Xy { by_mac, x: x as u16, y: y as u16, bri: bri as u8 },
                ),
            },
        },
    }
}

fn fx_of(p: &[Vec<char>], by_mac: bool) -> (r: Result<SetSpec, SetError>)
    ensures
        agrees(r, read_fx(texts(p@), by_mac)),
{
    match read_number(p, 1, Arg::Id, 1, 18) {
        Err(e) => Err(e),
        Ok(id) => match read_number(p, 2, Arg::Bri, 0, 100) {
            Err(e) => Err(e),
            Ok(bri) => Ok(SetSpec::Fx { by_mac, id: id as u8, bri: bri as u8 }),
        },
    }
}

fn scene_of(p: &[Vec<char>]) -> (r: Result<SetSpec, SetError>)
    ensures
        agrees(r, read_scene(texts(p@))),
{
    match read_number(p, 1, Arg::Id, 1, 9) {
        Err(e) => Err(e),
        Ok(id) => match read_number(p, 2, Arg::Bri, 0, 100) {
            Err(e) => Err(e),
            Ok(bri) => Ok(SetSpec::Scene { id: id as u8, bri: bri as u8 }),
        },
    }
}

fn pixel_of(p: &[Vec<char>]) -> (r: Result<SetSpec, SetError>)
    ensures
        agrees(r, read_pixel(texts(p@))),
{
    if p.len() < 2 {
        return Err(SetError::Missing(Arg::Hues));
    }
    assert(texts(p@)[1] == p@[1]@);
    match read_hues(&p[1]) {
        Err(e) => Err(e),
        Ok(hues) => match read_number(p, 2, Arg::Effect, 1, 10) {
            Err(e) => Err(e),
            Ok(effect) => match read_number(p, 3, Arg::Speed, 0, 100) {
                Err(e) => Err(e),
                Ok(speed) => Ok(
                    SetSpec::Pixel { hues, effect: effect as u8, speed: speed as u8 },
                ),
            },
        },
    }
}

fn rgbcw_of(p: &[Vec<char>], by_mac: bool) -> (r: Result<SetSpec, SetError>)
    ensures
        agrees(r, read_rgbcw(texts(p@), by_mac)),
{
    match read_number(p, 1, Arg::Red, 0, 255) {
        Err(e) => Err(e),
        Ok(r) => match read_number(p, 2, Arg::Green, 0, 255) {
            Err(e) => Err(e),
            Ok(g) => match read_number(p, 3, Arg::Blue, 0, 255) {
                Err(e) => Err(e),
                Ok(b) => match read_optional(p, 4, Arg::CoolWhite, 0) {
                    Err(e) => Err(e),
                    Ok(cw) => match read_optional(p, 5, Arg::WarmWhite, 0) {
                        Err(e) => Err(e),
                        Ok(ww) => match read_optional(p, 6, Arg::Bri, 100) {
                            Err(e) => Err(e),
                            Ok(bri) => if bri > 100 {
                                Err(
                                    SetError::OutOfRange {
                                        what: Arg::Bri,
                                        lowest: 0,
                                        highest: 100,
                                        got: bri as u32,
                                    },
                                )
                            } else {
                                Ok(
                                    SetSpec::Rgbcw {
                                        by_mac,
                                        r: r as u8,
                                        g: g as u8,
                                        b: b as u8,
                                        cw,
                                        ww,
                                        bri,
                                    },
                                )
                            },
                        },
                    },
                },
            },
        },
    }
}

/// Read a probe text.
pub fn read_set(spec: &str) -> (r: Result<SetSpec, SetError>)
    ensures
        agrees(r, asked(spec@)),
{
    let chars = chars_of(spec);
    let p = split(&chars, ':');
    assert(texts(p@)[0] == p@[0]@);
    match kind_of(&p[0]) {
        None => Err(SetError::UnknownKind),
        Some(kind) => match kind {
            Kind::WarmDim => Ok(SetSpec::WarmDim),
            Kind::Cct => cct_of(&p),
            Kind::CctGm => cctgm_of(&p),
            Kind::Hsi => hsi_of(&p),
            Kind::Xy => xy_of(&p, true),
            Kind::XyDirect => xy_of(&p, false),
            Kind::FxDirect => fx_of(&p, false),
            Kind::Scene => scene_of(&p),
            Kind::Fx => fx_of(&p, true),
            Kind::Pixel => pixel_of(&p),
            Kind::PixFx => match read_number(&p, 1, Arg::Effect, 1, 10) {
                Err(e) => Err(e),
                Ok(id) => Ok(SetSpec::PixelEffect { id: id as u8 }),
            },
            Kind::Rgbcw => rgbcw_of(&p, false),
            Kind::RgbcwMac => rgbcw_of(&p, true),
            Kind::Raw => {
                let digits = raw_digits(&p);
                if digits.len() == 0 || digits.len() % 2 != 0 {
                    Err(SetError::BadRaw)
                } else {
                    Ok(SetSpec::Raw { bytes: pair_digits(&digits) })
                }
            },
        },
    }
}

/// Whether every value lies within the range of its field in the frames.
pub open spec fn in_range(set: SetModel) -> bool {
    match set {
        SetModel::WarmDim => true,
        SetModel::Cct { kelvin, bri } => kelvin <= 25_500 && bri <= 100,
        SetModel::CctGm { kelvin, gm, bri, form } => {
            &&& kelvin <= 25_500
            &&& -50 <= gm <= 50
            &&& bri <= 100
            &&& 3 <= form <= 5
        },
        SetModel::Hsi { hue, sat, bri } => hue <= 360 && sat <= 100 && bri <= 100,
        SetModel::Xy { x, y, bri, .. } => x <= 8000 && y <= 8000 && bri <= 100,
        SetModel::Fx { id, bri, .. } => 1 <= id <= 18 && bri <= 100,
        SetModel::Scene { id, bri } => 1 <= id <= 9 && bri <= 100,
        SetModel::Pixel { hues, effect, speed } => {
            &&& forall|i: int| 0 <= i < hues.len() ==> (#[trigger] hues[i]) <= 360
            &&& 1 <= effect <= 10
            &&& speed <= 100
        },
        SetModel::PixelEffect { id } => 1 <= id <= 10,
        SetModel::Rgbcw { bri, .. } => bri <= 100,
        SetModel::Raw { bytes } => bytes.len() > 0,
    }
}

proof fn lemma_hues_in_range(parts: Seq<Seq<char>>)
    ensures
        hue_list(parts) matches Ok(hues) ==> forall|i: int|
            0 <= i < hues.len() ==> (#[trigger] hues[i]) <= 360,
    decreases parts.len(),
{
    if parts.len() > 0 {
        lemma_hues_in_range(parts.drop_last());
    }
}

proof fn lemma_whites_in_range(p: Seq<Seq<char>>)
    ensures
        read_cct(p) matches Ok(set) ==> in_range(set),
        read_cctgm(p) matches Ok(set) ==> in_range(set),
{
}

proof fn lemma_colours_in_range(p: Seq<Seq<char>>, by_mac: bool)
    ensures
        read_hsi(p) matches Ok(set) ==> in_range(set),
        read_xy(p, by_mac) matches Ok(set) ==> in_range(set),
{
}

proof fn lemma_effects_in_range(p: Seq<Seq<char>>, by_mac: bool)
    ensures
        read_fx(p, by_mac) matches Ok(set) ==> in_range(set),
        read_scene(p) matches Ok(set) ==> in_range(set),
        read_pixfx(p) matches Ok(set) ==> in_range(set),
{
}

proof fn lemma_pixels_in_range(p: Seq<Seq<char>>)
    ensures
        read_pixel(p) matches Ok(set) ==> in_range(set),
{
    if p.len() >= 2 {
        lemma_hues_in_range(fields(p[1], ','));
    }
}

proof fn lemma_banks_in_range(p: Seq<Seq<char>>, by_mac: bool)
    ensures
        read_rgbcw(p, by_mac) matches Ok(set) ==> in_range(set),
{
}

proof fn lemma_raw_in_range(p: Seq<Seq<char>>)
    ensures
        read_raw(p) matches Ok(set) ==> in_range(set),
{
}

/// A probe text that is accepted gives values within the ranges of the frames.
pub proof fn law_accepted_values_are_in_range(spec: Seq<char>)
    ensures
        asked(spec) matches Ok(set) ==> in_range(set),
{
    let p = fields(spec, ':');
    match kind_called(p[0]) {
        None => {},
        Some(kind) => match kind {
            Kind::WarmDim => {},
            Kind::Cct => {
                lemma_whites_in_range(p);
            },
            Kind::CctGm => {
                lemma_whites_in_range(p);
            },
            Kind::Hsi => {
                lemma_colours_in_range(p, true);
            },
            Kind::Xy => {
                lemma_colours_in_range(p, true);
            },
            Kind::XyDirect => {
                lemma_colours_in_range(p, false);
            },
            Kind::FxDirect => {
                lemma_effects_in_range(p, false);
            },
            Kind::Scene => {
                lemma_effects_in_range(p, true);
            },
            Kind::Fx => {
                lemma_effects_in_range(p, true);
            },
            Kind::Pixel => {
                lemma_pixels_in_range(p);
            },
            Kind::PixFx => {
                lemma_effects_in_range(p, true);
            },
            Kind::Rgbcw => {
                lemma_banks_in_range(p, false);
            },
            Kind::RgbcwMac => {
                lemma_banks_in_range(p, true);
            },
            Kind::Raw => {
                lemma_raw_in_range(p);
            },
        },
    }
}

/// The palette of some hues, fully saturated.
pub open spec fn hue_palette(hues: Seq<u16>) -> Seq<Block> {
    Seq::new(hues.len(), |i: int| Block::Hsi { hue: hues[i], sat: 100 })
}

/// The frames of a probe.
pub open spec fn set_frames(mac: Seq<u8>, set: SetModel) -> Seq<Seq<u8>> {
    match set {
        SetModel::WarmDim => seq![sealed(seq![0x78u8, 0x87, 0x04, 12, 27, gm_wire(0), 0x00])],
        SetModel::Cct { kelvin, bri } => seq![
            sealed(seq![0x78u8, 0x87, 0x02, bri, (kelvin / 100) as u8]),
        ],
        SetModel::CctGm { kelvin, gm, bri, form } => {
            let temp = (kelvin / 100) as u8;
            seq![
                if form == 3 {
                    sealed(seq![0x78u8, 0x87, 0x03, bri, temp, gm_wire(gm)])
                } else if form == 5 {
                    sealed(seq![0x78u8, 0x87, 0x05, bri, temp, gm_wire(gm), 0x00, 0x00])
                } else {
                    sealed(seq![0x78u8, 0x87, 0x04, bri, temp, gm_wire(gm), 0x00])
                },
            ]
        },
        SetModel::Hsi { hue, sat, bri } => seq![
            sealed(seq![0x78u8, 0x86, 0x04, lo(hue as int), hi(hue as int), sat, bri]),
        ],
        SetModel::Xy { by_mac, x, y, bri } => {
            let at = seq![lo(x as int), hi(x as int), lo(y as int), hi(y as int), 0x00u8];
            seq![
                if by_mac {
                    sealed(seq![0x78u8, 0xB7, 0x0C] + mac + seq![bri] + at)
                } else {
                    sealed(seq![0x78u8, 0xB9, 0x06, bri] + at)
                },
            ]
        },
        SetModel::Fx { by_mac, id, bri } => seq![
            if by_mac {
                fx_frame(mac, preset_data(id, bri))
            } else {
                fx_direct_frame(preset_data(id, bri))
            },
        ],
        SetModel::Scene { id, bri } => seq![sealed(seq![0x78u8, 0x88, 0x02, bri, id])],
        SetModel::Pixel { hues, effect, speed } => paint_frames(
            mac,
            hue_palette(hues),
            100,
            effect,
            speed,
            1,
        ),
        SetModel::PixelEffect { id } => pixel_effect_frames(mac, id),
        SetModel::Rgbcw { by_mac, r, g, b, cw, ww, bri } => {
            let banks = seq![bri, r, g, b, cw, ww, 0x00u8];
            seq![
                if by_mac {
                    sealed(seq![0x78u8, 0xA9, 0x0E] + mac + seq![0xA8u8] + banks)
                } else {
                    sealed(seq![0x78u8, 0xA8, 0x07] + banks)
                },
            ]
        },
        SetModel::Raw { bytes } => seq![bytes],
    }
}

/// Whether a known white goes out before the frames, so that a light that ignores them
/// shows it.
pub open spec fn set_reset(set: SetModel) -> bool {
    match set {
        SetModel::WarmDim => false,
        SetModel::Cct { .. } => false,
        SetModel::CctGm { .. } => false,
        SetModel::Raw { .. } => false,
        _ => true,
    }
}

/// What a probe is reported as.
pub open spec fn set_text(set: SetModel) -> Seq<char> {
    match set {
        SetModel::WarmDim => "dim warm white 2700K @ 12%"@,
        SetModel::Cct { kelvin, bri } => "CCT "@ + dec(kelvin as nat) + "K @ "@ + dec(bri as nat)
            + "%"@,
        SetModel::CctGm { kelvin, gm, bri, form } => "CCT"@ + dec(form as nat) + " "@ + dec(
            kelvin as nat,
        ) + "K gm"@ + signed_dec(gm as int) + " @ "@ + dec(bri as nat) + "%"@,
        SetModel::Hsi { hue, sat, bri } => "HSI hue="@ + dec(hue as nat) + " sat="@ + dec(
            sat as nat,
        ) + " @ "@ + dec(bri as nat) + "%"@,
        SetModel::Xy { by_mac, x, y, bri } => (if by_mac {
            "XY by-MAC 0xB7 x="@
        } else {
            "XY direct 0xB9 x="@
        }) + dec(x as nat) + " y="@ + dec(y as nat) + " @ "@ + dec(bri as nat) + "%"@,
        SetModel::Fx { by_mac, id, bri } => (if by_mac {
            "FX #"@
        } else {
            "FX direct 0x8B #"@
        }) + dec(id as nat) + " @ "@ + dec(bri as nat) + "%"@,
        SetModel::Scene { id, bri } => "SCENE 0x88 #"@ + dec(id as nat) + " @ "@ + dec(bri as nat)
            + "%"@,
        SetModel::Pixel { hues, effect, speed } => {
            let start = "PIXEL "@ + dec(hues.len()) + " seg eff="@ + dec(effect as nat);
            if rendered(effect) == effect {
                start + " speed="@ + dec(speed as nat)
            } else {
                start + " → not supported over direct BLE, sending "@ + dec(
                    rendered(effect) as nat,
                ) + " (ColorReplacement) speed="@ + dec(speed as nat)
            }
        },
        SetModel::PixelEffect { id } => "PIXEL effect "@ + dec(id as nat) + " ("@
            + pixel_effect_name(id) + ")"@,
        SetModel::Rgbcw { by_mac, r, g, b, cw, ww, bri } => (if by_mac {
            "RGBCW by-MAC 0xA9 (production form — should render): R="@
        } else {
            "RGBCW direct 0xA8 (ignored on TL120C — should stay white): R="@
        }) + dec(r as nat) + " G="@ + dec(g as nat) + " B="@ + dec(b as nat) + " CW="@ + dec(
            cw as nat,
        ) + " WW="@ + dec(ww as nat) + " @ "@ + dec(bri as nat) + "%"@,
        SetModel::Raw { bytes } => "raw frame ["@ + spaced_hex(bytes, true) + "]"@,
    }
}

/// What one probe text comes to: the frames to send, what they are reported as, and
/// whether a known white goes out first.
#[derive(Debug, Clone)]
pub struct SetPlan {
    pub frames: Vec<Vec<u8>>,
    pub desc: String,
    pub reset: bool,
}

fn one(frame: Vec<u8>) -> (r: Vec<Vec<u8>>)
    ensures
        frames_of(r@) == seq![frame@],
{
    let frames: Vec<Vec<u8>> = vec![frame];
    assert(frames_of(frames@) =~= seq![frame@]);
    frames
}

fn hue_blocks(hues: &[u16]) -> (r: Vec<Block>)
    ensures
        r@ == hue_palette(hues@),
{
    let mut blocks: Vec<Block> = Vec::new();
    let mut i: usize = 0;
    while i < hues.len()
        invariant
            i <= hues@.len(),
            blocks@ == hue_palette(hues@.take(i as int)),
        decreases hues@.len() - i,
    {
        blocks.push(Block::Hsi { hue: hues[i], sat: 100 });
        i += 1;
        assert(blocks@ =~= hue_palette(hues@.take(i as int)));
    }
    assert(hues@.take(i as int) == hues@);
    blocks
}

fn frames_for(mac: [u8; 6], set: &SetSpec) -> (r: Vec<Vec<u8>>)
    requires
        in_range(set@),
    ensures
        frames_of(r@) == set_frames(mac@, set@),
{
    match set {
        SetSpec::WarmDim => one(classic::cct4(12, 27, 0)),
        SetSpec::Cct { kelvin, bri } => one(classic::cct2(*bri, (*kelvin / 100) as u8)),
        SetSpec::CctGm { kelvin, gm, bri, form } => {
            let temp: u8 = (*kelvin / 100) as u8;
            if *form == 3 {
                one(classic::cct3(*bri, temp, *gm))
            } else if *form == 5 {
                one(classic::cct_gm5(*bri, temp, *gm))
            } else {
                one(classic::cct4(*bri, temp, *gm))
            }
        },
        SetSpec::Hsi { hue, sat, bri } => one(classic::hsi(*hue, *sat, *bri)),
        SetSpec::Xy { by_mac, x, y, bri } => {
            proof {
                let at = seq![lo(*x as int), hi(*x as int), lo(*y as int), hi(*y as int), 0x00u8];
                assert(seq![0x78u8, 0xB7, 0x0C] + mac@ + seq![*bri] + at =~= seq![
                    0x78u8,
                    0xB7,
                    0x0C,
                ] + mac@ + seq![*bri, at[0], at[1], at[2], at[3], 0x00]);
                assert(seq![0x78u8, 0xB9, 0x06, *bri] + at =~= seq![
                    0x78u8,
                    0xB9,
                    0x06,
                    *bri,
                    at[0],
                    at[1],
                    at[2],
                    at[3],
                    0x00,
                ]);
            }
            if *by_mac {
                one(classic::xy_mac(mac, *bri, *x, *y))
            } else {
                one(classic::xy(*bri, *x, *y))
            }
        },
        SetSpec::Fx { by_mac, id, bri } => if *by_mac {
            one(fx_preset(mac, *id, *bri))
        } else {
            one(fx_preset_direct(*id, *bri))
        },
        SetSpec::Scene { id, bri } => one(classic::scene(*bri, *id)),
        SetSpec::Pixel { hues, effect, speed } => {
            let blocks = hue_blocks(hues);
            paint(mac, &blocks, 100, *effect, *speed, 1)
        },
        SetSpec::PixelEffect { id } => pixel_effect_test(mac, *id).0,
        SetSpec::Rgbcw { by_mac, r, g, b, cw, ww, bri } => {
            proof {
                let banks = seq![*bri, *r, *g, *b, *cw, *ww, 0x00u8];
                assert(seq![0x78u8, 0xA9, 0x0E] + mac@ + seq![0xA8u8] + banks =~= seq![
                    0x78u8,
                    0xA9,
                    0x0E,
                ] + mac@ + seq![0xA8u8, *bri, *r, *g, *b, *cw, *ww, 0x00]);
                assert(seq![0x78u8, 0xA8, 0x07] + banks =~= seq![
                    0x78u8,
                    0xA8,
                    0x07,
                    *bri,
                    *r,
                    *g,
                    *b,
                    *cw,
                    *ww,
                    0x00,
                ]);
            }
            if *by_mac {
                one(classic::rgbcw_mac(mac, *bri, *r, *g, *b, *cw, *ww, 0))
            } else {
                one(classic::rgbcw(*bri, *r, *g, *b, *cw, *ww, 0))
            }
        },
        SetSpec::Raw { bytes } => one(vstd::slice::slice_to_vec(bytes)),
    }
}

fn push_percent(out: &mut String, bri: u8)
    ensures
        final(out)@ == old(out)@ + dec(bri as nat) + "%"@,
{
    push_dec(out, bri as u64);
    out.append("%");
}

fn describe(set: &SetSpec) -> (r: String)
    ensures
        r@ == set_text(set@),
{
    match set {
        SetSpec::WarmDim => "dim warm white 2700K @ 12%".to_string(),
        SetSpec::Cct { kelvin, bri } => {
            let mut out = "CCT ".to_string();
            push_dec(&mut out, *kelvin as u64);
            out.append("K @ ");
            push_percent(&mut out, *bri);
            out
        },
        SetSpec::CctGm { kelvin, gm, bri, form } => {
            let mut out = "CCT".to_string();
            push_dec(&mut out, *form as u64);
            out.append(" ");
            push_dec(&mut out, *kelvin as u64);
            out.append("K gm");
            push_signed_dec(&mut out, *gm as i64);
            out.append(" @ ");
            push_percent(&mut out, *bri);
            out
        },
        SetSpec::Hsi { hue, sat, bri } => {
            let mut out = "HSI hue=".to_string();
            push_dec(&mut out, *hue as u64);
            out.append(" sat=");
            push_dec(&mut out, *sat as u64);
            out.append(" @ ");
            push_percent(&mut out, *bri);
            out
        },
        SetSpec::Xy { by_mac, x, y, bri } => {
            let mut out = if *by_mac {
                "XY by-MAC 0xB7 x=".to_string()
            } else {
                "XY direct 0xB9 x=".to_string()
            };
            push_dec(&mut out, *x as u64);
            out.append(" y=");
            push_dec(&mut out, *y as u64);
            out.append(" @ ");
            push_percent(&mut out, *bri);
            out
        },
        SetSpec::Fx { by_mac, id, bri } => {
            let mut out = if *by_mac {
                "FX #".to_string()
            } else {
                "FX direct 0x8B #".to_string()
            };
            push_dec(&mut out, *id as u64);
            out.append(" @ ");
            push_percent(&mut out, *bri);
            out
        },
        SetSpec::Scene { id, bri } => {
            let mut out = "SCENE 0x88 #".to_string();
            push_dec(&mut out, *id as u64);
            out.append(" @ ");
            push_percent(&mut out, *bri);
            out
        },
        SetSpec::Pixel { hues, effect, speed } => {
            let shown: u8 = rendered_effect(*effect);
            let mut out = "PIXEL ".to_string();
            push_dec(&mut out, hues.len() as u64);
            out.append(" seg eff=");
            push_dec(&mut out, *effect as u64);
            if shown == *effect {
                out.append(" speed=");
            } else {
                out.append(" → not supported over direct BLE, sending ");
                push_dec(&mut out, shown as u64);
                out.append(" (ColorReplacement) speed=");
            }
            push_dec(&mut out, *speed as u64);
            out
        },
        SetSpec::PixelEffect { id } => {
            let mut out = "PIXEL effect ".to_string();
            push_dec(&mut out, *id as u64);
            out.append(" (");
            out.append(pixel_effect_test([0, 0, 0, 0, 0, 0], *id).1);
            out.append(")");
            out
        },
        SetSpec::Rgbcw { by_mac, r, g, b, cw, ww, bri } => {
            let mut out = if *by_mac {
                "RGBCW by-MAC 0xA9 (production form — should render): R=".to_string()
            } else {
                "RGBCW direct 0xA8 (ignored on TL120C — should stay white): R=".to_string()
            };
            push_dec(&mut out, *r as u64);
            out.append(" G=");
            push_dec(&mut out, *g as u64);
            out.append(" B=");
            push_dec(&mut out, *b as u64);
            out.append(" CW=");
            push_dec(&mut out, *cw as u64);
            out.append(" WW=");
            push_dec(&mut out, *ww as u64);
            out.append(" @ ");
            push_percent(&mut out, *bri);
            out
        },
        SetSpec::Raw { bytes } => {
            let mut out = "raw frame [".to_string();
            push_spaced_hex(&mut out, bytes, true);
            out.append("]");
            out
        },
    }
}

/// Turn a probe text into the frames that it means, or say why it means none.
pub fn build_set_plan(mac: [u8; 6], spec: &str) -> (r: Result<SetPlan, SetError>)
    ensures
        match r {
            Ok(plan) => {
                &&& asked(spec@) matches Ok(set)
                &&& frames_of(plan.frames@) == set_frames(mac@, set)
                &&& plan.desc@ == set_text(set)
                &&& plan.reset == set_reset(set)
            },
            Err(e) => asked(spec@) == Err::<SetModel, SetError>(e),
        },
{
    proof {
        law_accepted_values_are_in_range(spec@);
    }
    match read_set(spec) {
        Err(e) => Err(e),
        Ok(set) => {
            let reset = match set {
                SetSpec::WarmDim | SetSpec::Cct { .. } | SetSpec::CctGm { .. } | SetSpec::Raw {
                    ..
                } => false,
                _ => true,
            };
            Ok(SetPlan { frames: frames_for(mac, &set), desc: describe(&set), reset })
        },
    }
}

/// The writes of a plan: the known white first, where it is asked for, then the frames
/// four times over, a second apart.
pub open spec fn set_steps(frames: Seq<Seq<u8>>, reset: bool) -> Seq<StepModel> {
    let start = if reset {
        seq![once(sealed(seq![0x78u8, 0x87, 0x04, 50, 56, gm_wire(0), 0x00]), 900)]
    } else {
        Seq::empty()
    };
    start + paced(frames, 1000) + paced(frames, 1000) + paced(frames, 1000) + paced(frames, 0)
}

/// Send the frames of a plan and hold them: the light keeps the state.
pub fn test_set(plan: &SetPlan) -> (r: Vec<Step>)
    ensures
        steps_of(r@) == set_steps(frames_of(plan.frames@), plan.reset),
{
    let mut steps: Vec<Step> = Vec::new();
    assert(steps_of(steps@) =~= Seq::empty());
    if plan.reset {
        write_once(&mut steps, classic::cct4(50, 56, 0), 900);
    }
    write_paced(&mut steps, &plan.frames, 1000);
    write_paced(&mut steps, &plan.frames, 1000);
    write_paced(&mut steps, &plan.frames, 1000);
    write_paced(&mut steps, &plan.frames, 0);
    steps
}

} // verus!
