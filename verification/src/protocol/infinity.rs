//! Infinity variant of the `0x78` protocol: lights that want the 6-byte
//! hardware MAC in every payload. `LEN` counts the MAC, the sub-tag and the
//! value bytes. The MAC is the Bluetooth address of the light.

use vstd::prelude::*;
use super::{clamped, gm_byte, gm_wire, hi, lo, min_of, sealed, well_framed, with_checksum};

verus! {

const PREFIX: u8 = 0x78;

const TAG_POWER: u8 = 0x8D;

const SUB_POWER: u8 = 0x81;

const TAG_HSI: u8 = 0x8F;

const SUB_HSI: u8 = 0x86;

const TAG_CCT: u8 = 0x90;

const SUB_CCT: u8 = 0x87;

const DIMMING_CURVE: u8 = 0x04;

const TAG_FX: u8 = 0x91;

const SUB_FX: u8 = 0x8B;

/// Power: `78 8D 08 <MAC6> 81 <01 on | 02 off>`.
pub fn power(mac: [u8; 6], on: bool) -> (f: Vec<u8>)
    ensures
        f@ == sealed(
            seq![0x78u8, 0x8D, 0x08] + mac@ + seq![
                0x81u8,
                if on {
                    0x01
                } else {
                    0x02
                },
            ],
        ),
        well_framed(f@),
{
    let mut f: Vec<u8> = vec![PREFIX, TAG_POWER, 0x08];
    f.extend_from_slice(mac.as_slice());
    f.push(SUB_POWER);
    f.push(
        if on {
            0x01
        } else {
            0x02
        },
    );
    assert(f@ =~= seq![0x78u8, 0x8D, 0x08] + mac@ + seq![
        0x81u8,
        if on {
            0x01
        } else {
            0x02
        },
    ]);
    with_checksum(f)
}

/// CCT: `78 90 0B <MAC6> 87 <brr> <temp> <gm+50> 04`; the trailing `04` is the
/// dimming-curve type.
pub fn cct(mac: [u8; 6], brr: u8, temp: u8, gm: i8) -> (f: Vec<u8>)
    ensures
        f@ == sealed(
            seq![0x78u8, 0x90, 0x0B] + mac@ + seq![0x87u8, brr, temp, gm_wire(gm), 0x04],
        ),
        well_framed(f@),
{
    let mut f: Vec<u8> = vec![PREFIX, TAG_CCT, 0x0B];
    f.extend_from_slice(mac.as_slice());
    f.push(SUB_CCT);
    f.push(brr);
    f.push(temp);
    f.push(gm_byte(gm));
    f.push(DIMMING_CURVE);
    assert(f@ =~= seq![0x78u8, 0x90, 0x0B] + mac@ + seq![0x87u8, brr, temp, gm_wire(gm), 0x04]);
    with_checksum(f)
}

/// HSI: `78 8F 0C <MAC6> 86 <hue_lo> <hue_hi> <sat> <brr> 00`, hue capped at 360.
pub fn hsi(mac: [u8; 6], hue: u16, sat: u8, brr: u8) -> (f: Vec<u8>)
    ensures
        f@ == sealed(
            seq![0x78u8, 0x8F, 0x0C] + mac@ + seq![
                0x86u8,
                lo(min_of(hue as int, 360)),
                hi(min_of(hue as int, 360)),
                sat,
                brr,
                0x00,
            ],
        ),
        well_framed(f@),
{
    let hue: u16 = if hue > 360 {
        360
    } else {
        hue
    };
    let mut f: Vec<u8> = vec![PREFIX, TAG_HSI, 0x0C];
    f.extend_from_slice(mac.as_slice());
    f.push(SUB_HSI);
    f.push((hue % 256) as u8);
    f.push((hue / 256) as u8);
    f.push(sat);
    f.push(brr);
    f.push(0x00);
    assert(f@ =~= seq![0x78u8, 0x8F, 0x0C] + mac@ + seq![
        0x86u8,
        lo(hue as int),
        hi(hue as int),
        sat,
        brr,
        0x00,
    ]);
    with_checksum(f)
}

/// The effect data `[id, params...]` of one of the 18 built-in effects; any
/// other id is laid out as effect 1. Speed is held to 1..=10, hues to 360, and
/// `extra` to what its effect allows.
pub open spec fn effect_data(
    id: u8,
    bri: u8,
    cct: u8,
    gm: i8,
    hue: u16,
    sat: u8,
    speed: u8,
    extra: u8,
    val2: u16,
) -> Seq<u8> {
    let g = gm_wire(gm);
    let spd = clamped(speed as int, 1, 10) as u8;
    let h1 = min_of(hue as int, 360);
    let h2 = min_of(val2 as int, 360);
    let sparks = clamped(extra as int, 1, 10) as u8;
    if id == 2 || id == 3 || id == 6 || id == 8 {
        seq![id, bri, cct, g, spd]
    } else if id == 4 {
        seq![4u8, bri, cct, g, spd, sparks]
    } else if id == 5 || id == 15 {
        seq![id, 0u8, bri, cct, g, spd]
    } else if id == 7 || id == 9 {
        seq![id, bri, lo(h1), hi(h1), sat, spd]
    } else if id == 10 {
        seq![10u8, bri, min_of(extra as int, 4) as u8, spd]
    } else if id == 11 {
        seq![11u8, 0u8, bri, cct, g, spd, sparks]
    } else if id == 12 {
        seq![12u8, bri, lo(h1), hi(h1), lo(h2), hi(h2), spd]
    } else if id == 13 {
        seq![13u8, bri, cct, lo(val2 as int), spd]
    } else if id == 14 {
        seq![14u8, min_of(extra as int, 1) as u8, 0u8, bri, lo(h1), hi(h1), cct, spd]
    } else if id == 16 {
        seq![16u8, bri, min_of(extra as int, 2) as u8, spd, 5u8]
    } else if id == 17 {
        seq![17u8, bri, min_of(extra as int, 2) as u8, spd]
    } else if id == 18 {
        seq![18u8, bri]
    } else {
        seq![1u8, bri, cct, spd]
    }
}

fn at_most(v: u8, cap: u8) -> (r: u8)
    ensures
        r == min_of(v as int, cap as int),
{
    if v > cap {
        cap
    } else {
        v
    }
}

fn one_to_ten(v: u8) -> (r: u8)
    ensures
        r == clamped(v as int, 1, 10),
{
    if v < 1 {
        1
    } else if v > 10 {
        10
    } else {
        v
    }
}

/// Lay out the effect data of one effect. Params are in native ranges:
/// `bri`/`sat` 0..=100, `cct` raw, `gm` -50..=50, `hue` 0..=360, `speed` 1..=10;
/// `extra` is the effect's own byte and `val2` its 16-bit second value.
#[allow(clippy::too_many_arguments)]
fn fx_data(
    id: u8,
    bri: u8,
    cct: u8,
    gm: i8,
    hue: u16,
    sat: u8,
    speed: u8,
    extra: u8,
    val2: u16,
) -> (r: Vec<u8>)
    ensures
        r@ == effect_data(id, bri, cct, gm, hue, sat, speed, extra, val2),
        2 <= r@.len() <= 8,
{
    let g: u8 = gm_byte(gm);
    let spd: u8 = one_to_ten(speed);
    let hue: u16 = if hue > 360 {
        360
    } else {
        hue
    };
    let (hlo, hhi): (u8, u8) = ((hue % 256) as u8, (hue / 256) as u8);
    let h2: u16 = if val2 > 360 {
        360
    } else {
        val2
    };
    let (h2lo, h2hi): (u8, u8) = ((h2 % 256) as u8, (h2 / 256) as u8);
    let cct2: u8 = (val2 % 256) as u8;
    match id {
        1 => vec![1, bri, cct, spd],
        2 | 3 | 6 | 8 => vec![id, bri, cct, g, spd],
        4 => vec![4, bri, cct, g, spd, one_to_ten(extra)],
        5 | 15 => vec![id, 0, bri, cct, g, spd],
        7 | 9 => vec![id, bri, hlo, hhi, sat, spd],
        10 => vec![10, bri, at_most(extra, 4), spd],
        11 => vec![11, 0, bri, cct, g, spd, one_to_ten(extra)],
        12 => vec![12, bri, hlo, hhi, h2lo, h2hi, spd],
        13 => vec![13, bri, cct, cct2, spd],
        14 => vec![14, at_most(extra, 1), 0, bri, hlo, hhi, cct, spd],
        16 => vec![16, bri, at_most(extra, 2), spd, 5],
        17 => vec![17, bri, at_most(extra, 2), spd],
        18 => vec![18, bri],
        _ => vec![1, bri, cct, spd],
    }
}

/// The effect frame around effect data: `78 91 <N+7> <MAC6> 8B <data>`.
pub open spec fn fx_frame(mac: Seq<u8>, data: Seq<u8>) -> Seq<u8> {
    sealed(seq![0x78u8, 0x91, (data.len() + 7) as u8] + mac + seq![0x8Bu8] + data)
}

/// The effect frame without a MAC: `78 8B <N> <data>`.
pub open spec fn fx_direct_frame(data: Seq<u8>) -> Seq<u8> {
    sealed(seq![0x78u8, 0x8B, data.len() as u8] + data)
}

/// Built-in effect frame: `78 91 <N+7> <MAC6> 8B <id params...>`.
#[allow(clippy::too_many_arguments)]
pub fn fx(
    mac: [u8; 6],
    id: u8,
    bri: u8,
    cct: u8,
    gm: i8,
    hue: u16,
    sat: u8,
    speed: u8,
    extra: u8,
    val2: u16,
) -> (f: Vec<u8>)
    ensures
        f@ == fx_frame(mac@, effect_data(id, bri, cct, gm, hue, sat, speed, extra, val2)),
        well_framed(f@),
{
    let data: Vec<u8> = fx_data(id, bri, cct, gm, hue, sat, speed, extra, val2);
    let mut f: Vec<u8> = vec![PREFIX, TAG_FX, (data.len() + 7) as u8];
    f.extend_from_slice(mac.as_slice());
    f.push(SUB_FX);
    f.extend_from_slice(&data);
    assert(f@ =~= seq![0x78u8, 0x91, (data@.len() + 7) as u8] + mac@ + seq![0x8Bu8] + data@);
    with_checksum(f)
}

/// Built-in effect frame for lights without MAC addressing:
/// `78 8B <N> <id params...>`, the same effect data as [`fx`].
#[allow(clippy::too_many_arguments)]
pub fn fx_direct(
    id: u8,
    bri: u8,
    cct: u8,
    gm: i8,
    hue: u16,
    sat: u8,
    speed: u8,
    extra: u8,
    val2: u16,
) -> (f: Vec<u8>)
    ensures
        f@ == fx_direct_frame(effect_data(id, bri, cct, gm, hue, sat, speed, extra, val2)),
        well_framed(f@),
{
    let data: Vec<u8> = fx_data(id, bri, cct, gm, hue, sat, speed, extra, val2);
    let mut f: Vec<u8> = vec![PREFIX, SUB_FX, data.len() as u8];
    f.extend_from_slice(&data);
    assert(f@ =~= seq![0x78u8, 0x8B, data@.len() as u8] + data@);
    with_checksum(f)
}

/// The two effect frame forms carry the same effect data, byte for byte.
pub proof fn law_fx_forms_carry_the_same_payload(mac: Seq<u8>, data: Seq<u8>)
    requires
        mac.len() == 6,
    ensures
        ({
            let m = fx_frame(mac, data);
            let d = fx_direct_frame(data);
            &&& m.subrange(10, m.len() - 1) == data
            &&& d.subrange(3, d.len() - 1) == data
        }),
{
    let m = fx_frame(mac, data);
    let d = fx_direct_frame(data);
    assert(m.subrange(10, m.len() - 1) =~= data);
    assert(d.subrange(3, d.len() - 1) =~= data);
}

} // verus!
