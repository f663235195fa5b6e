//! Classic `0x78` protocol: `[0x78][TAG][LEN][payload...][checksum]`.
//!
//! Brightness is a single byte 0..=100. Hue is 16-bit little-endian. White has
//! four frame forms in the field; the driver picks one.

use vstd::prelude::*;
use super::{gm_byte, gm_wire, hi, lo, min_of, sealed, well_framed, with_checksum};

verus! {

const PREFIX: u8 = 0x78;

const TAG_POWER: u8 = 0x81;

const TAG_CCT: u8 = 0x87;

const TAG_HSI: u8 = 0x86;

const TAG_XY: u8 = 0xB9;

const TAG_XY_MAC: u8 = 0xB7;

const TAG_RGBCW: u8 = 0xA8;

const TAG_RGBCW_MAC: u8 = 0xA9;

const TAG_SCENE: u8 = 0x88;

/// The largest xy coordinate on the wire: 0.8000.
pub const XY_MAX: u16 = 8000;

/// `78 81 01 01 FB`
pub fn power_on() -> (f: Vec<u8>)
    ensures
        f@ == sealed(seq![0x78u8, 0x81, 0x01, 0x01]),
        well_framed(f@),
{
    with_checksum(vec![PREFIX, TAG_POWER, 0x01, 0x01])
}

/// `78 81 01 02 FC`
pub fn power_off() -> (f: Vec<u8>)
    ensures
        f@ == sealed(seq![0x78u8, 0x81, 0x01, 0x02]),
        well_framed(f@),
{
    with_checksum(vec![PREFIX, TAG_POWER, 0x01, 0x02])
}

/// Power on or off.
pub fn power(on: bool) -> (f: Vec<u8>)
    ensures
        f@ == sealed(
            seq![
                0x78u8,
                0x81,
                0x01,
                if on {
                    0x01
                } else {
                    0x02
                },
            ],
        ),
        well_framed(f@),
{
    if on {
        power_on()
    } else {
        power_off()
    }
}

/// 2-byte CCT: `78 87 02 <brr> <cct>` (no GM).
pub fn cct2(brr: u8, cct: u8) -> (f: Vec<u8>)
    ensures
        f@ == sealed(seq![0x78u8, 0x87, 0x02, brr, cct]),
        well_framed(f@),
{
    with_checksum(vec![PREFIX, TAG_CCT, 0x02, brr, cct])
}

/// 3-byte CCT: `78 87 03 <brr> <cct> <gm+50>`.
pub fn cct3(brr: u8, cct: u8, gm: i8) -> (f: Vec<u8>)
    ensures
        f@ == sealed(seq![0x78u8, 0x87, 0x03, brr, cct, gm_wire(gm)]),
        well_framed(f@),
{
    with_checksum(vec![PREFIX, TAG_CCT, 0x03, brr, cct, gm_byte(gm)])
}

/// 4-byte CCT: `78 87 04 <brr> <cct> <gm+50> 00`; the last byte is the
/// dimming-curve type. This is the form the driver uses.
pub fn cct4(brr: u8, cct: u8, gm: i8) -> (f: Vec<u8>)
    ensures
        f@ == sealed(seq![0x78u8, 0x87, 0x04, brr, cct, gm_wire(gm), 0x00]),
        well_framed(f@),
{
    with_checksum(vec![PREFIX, TAG_CCT, 0x04, brr, cct, gm_byte(gm), 0x00])
}

/// 5-byte CCT: `78 87 05 <brr> <cct> <gm+50> 00 00`.
pub fn cct_gm5(brr: u8, cct: u8, gm: i8) -> (f: Vec<u8>)
    ensures
        f@ == sealed(seq![0x78u8, 0x87, 0x05, brr, cct, gm_wire(gm), 0x00, 0x00]),
        well_framed(f@),
{
    with_checksum(vec![PREFIX, TAG_CCT, 0x05, brr, cct, gm_byte(gm), 0x00, 0x00])
}

/// HSI: `78 86 04 <hue_lo> <hue_hi> <sat> <brr>`, hue capped at 360.
pub fn hsi(hue: u16, sat: u8, brr: u8) -> (f: Vec<u8>)
    ensures
        f@ == sealed(
            seq![
                0x78u8,
                0x86,
                0x04,
                lo(min_of(hue as int, 360)),
                hi(min_of(hue as int, 360)),
                sat,
                brr,
            ],
        ),
        well_framed(f@),
{
    let hue: u16 = if hue > 360 {
        360
    } else {
        hue
    };
    with_checksum(vec![PREFIX, TAG_HSI, 0x04, (hue % 256) as u8, (hue / 256) as u8, sat, brr])
}

/// CIE xy (direct): `78 B9 06 <brr> <x_lo> <x_hi> <y_lo> <y_hi> 00`, each
/// coordinate capped at 8000.
pub fn xy(brr: u8, x: u16, y: u16) -> (f: Vec<u8>)
    ensures
        f@ == sealed(
            seq![
                0x78u8,
                0xB9,
                0x06,
                brr,
                lo(min_of(x as int, 8000)),
                hi(min_of(x as int, 8000)),
                lo(min_of(y as int, 8000)),
                hi(min_of(y as int, 8000)),
                0x00,
            ],
        ),
        well_framed(f@),
{
    let x: u16 = if x > XY_MAX {
        XY_MAX
    } else {
        x
    };
    let y: u16 = if y > XY_MAX {
        XY_MAX
    } else {
        y
    };
    with_checksum(
        vec![
            PREFIX,
            TAG_XY,
            0x06,
            brr,
            (x % 256) as u8,
            (x / 256) as u8,
            (y % 256) as u8,
            (y / 256) as u8,
            0x00,
        ],
    )
}

/// CIE xy by MAC: `78 B7 0C <MAC6> <brr> <x_lo> <x_hi> <y_lo> <y_hi> 00`.
pub fn xy_mac(mac: [u8; 6], brr: u8, x: u16, y: u16) -> (f: Vec<u8>)
    ensures
        f@ == sealed(
            seq![0x78u8, 0xB7, 0x0C] + mac@ + seq![
                brr,
                lo(min_of(x as int, 8000)),
                hi(min_of(x as int, 8000)),
                lo(min_of(y as int, 8000)),
                hi(min_of(y as int, 8000)),
                0x00,
            ],
        ),
        well_framed(f@),
{
    let x: u16 = if x > XY_MAX {
        XY_MAX
    } else {
        x
    };
    let y: u16 = if y > XY_MAX {
        XY_MAX
    } else {
        y
    };
    let mut f: Vec<u8> = vec![PREFIX, TAG_XY_MAC, 0x0C];
    f.extend_from_slice(mac.as_slice());
    f.push(brr);
    f.push((x % 256) as u8);
    f.push((x / 256) as u8);
    f.push((y % 256) as u8);
    f.push((y / 256) as u8);
    f.push(0x00);
    assert(f@ =~= seq![0x78u8, 0xB7, 0x0C] + mac@ + seq![
        brr,
        lo(x as int),
        hi(x as int),
        lo(y as int),
        hi(y as int),
        0x00,
    ]);
    with_checksum(f)
}

/// Old nine-scene effects: `78 88 02 <brr> <scene 1..=9>`.
pub fn scene(brr: u8, id: u8) -> (f: Vec<u8>)
    ensures
        f@ == sealed(seq![0x78u8, 0x88, 0x02, brr, id]),
        well_framed(f@),
{
    with_checksum(vec![PREFIX, TAG_SCENE, 0x02, brr, id])
}

/// RGBCW direct: `78 A8 07 <brr> <R> <G> <B> <CW> <WW> <decBrr>`. Lights that
/// want MAC-addressed frames ignore it; the driver uses [`rgbcw_mac`].
pub fn rgbcw(brr: u8, r: u8, g: u8, b: u8, cw: u8, ww: u8, dec_brr: u8) -> (f: Vec<u8>)
    ensures
        f@ == sealed(seq![0x78u8, 0xA8, 0x07, brr, r, g, b, cw, ww, dec_brr]),
        well_framed(f@),
{
    with_checksum(vec![PREFIX, TAG_RGBCW, 0x07, brr, r, g, b, cw, ww, dec_brr])
}

/// RGBCW by MAC: `78 A9 0E <MAC6> A8 <brr> <R> <G> <B> <CW> <WW> <decBrr>`.
#[allow(clippy::too_many_arguments)]
pub fn rgbcw_mac(
    mac: [u8; 6],
    brr: u8,
    r: u8,
    g: u8,
    b: u8,
    cw: u8,
    ww: u8,
    dec_brr: u8,
) -> (f: Vec<u8>)
    ensures
        f@ == sealed(
            seq![0x78u8, 0xA9, 0x0E] + mac@ + seq![0xA8u8, brr, r, g, b, cw, ww, dec_brr],
        ),
        well_framed(f@),
{
    let mut f: Vec<u8> = vec![PREFIX, TAG_RGBCW_MAC, 0x0E];
    f.extend_from_slice(mac.as_slice());
    f.push(0xA8);
    f.push(brr);
    f.push(r);
    f.push(g);
    f.push(b);
    f.push(cw);
    f.push(ww);
    f.push(dec_brr);
    assert(f@ =~= seq![0x78u8, 0xA9, 0x0E] + mac@ + seq![0xA8u8, brr, r, g, b, cw, ww, dec_brr]);
    with_checksum(f)
}

} // verus!
