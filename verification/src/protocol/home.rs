//! Neewer Home `0x7A` protocol: the `NH-*` smart-home line. Same service and
//! checksum as `0x78`, other prefix and tags, brightness in tenths of a percent
//! (0..=1000), hue 16-bit big-endian. Colour frames carry a 2-byte big-endian
//! size.

use vstd::prelude::*;
use super::{checksummed, hi, lo, min_of, sealed, well_framed, with_checksum};

verus! {

const PREFIX: u8 = 0x7A;

const ID_POWER: u8 = 0x0A;

const ID_CCT: u8 = 0x0C;

const ID_BRIGHTNESS: u8 = 0x0B;

const ID_COLOR: u8 = 0x0D;

/// The relative brightness of a colour in a colour frame.
const LIGHTNESS: u8 = 0x64;

/// The tens byte of a brightness, which is held to 1000.
pub open spec fn tens(brr1000: u16) -> u8 {
    (min_of(brr1000 as int, 1000) / 10) as u8
}

/// The units byte of a brightness, which is held to 1000.
pub open spec fn units(brr1000: u16) -> u8 {
    (min_of(brr1000 as int, 1000) % 10) as u8
}

/// Split a Home brightness (0..=1000) into its two digit bytes, which the light
/// reads back as `hi * 10 + lo`.
pub fn bcd(brr1000: u16) -> (r: (u8, u8))
    ensures
        r.0 == tens(brr1000),
        r.1 == units(brr1000),
        r.0 * 10 + r.1 == min_of(brr1000 as int, 1000),
{
    let v: u16 = if brr1000 > 1000 {
        1000
    } else {
        brr1000
    };
    ((v / 10) as u8, (v % 10) as u8)
}

/// Power: `7A 0A 01 01 86` (on) / `7A 0A 01 02 87` (off).
pub fn power(on: bool) -> (f: Vec<u8>)
    ensures
        f@ == sealed(
            seq![
                0x7Au8,
                0x0A,
                0x01,
                if on {
                    0x01
                } else {
                    0x02
                },
            ],
        ),
        well_framed(f@),
{
    with_checksum(
        vec![
            PREFIX,
            ID_POWER,
            0x01,
            if on {
                0x01
            } else {
                0x02
            },
        ],
    )
}

/// CCT: `7A 0C 06 <brr_hi> <brr_lo> <temp> 00 01 00`, `brr1000` 0..=1000.
pub fn cct(brr1000: u16, temp: u8) -> (f: Vec<u8>)
    ensures
        f@ == sealed(
            seq![0x7Au8, 0x0C, 0x06, tens(brr1000), units(brr1000), temp, 0x00, 0x01, 0x00],
        ),
        well_framed(f@),
{
    let (h, l) = bcd(brr1000);
    with_checksum(vec![PREFIX, ID_CCT, 0x06, h, l, temp, 0x00, 0x01, 0x00])
}

/// Brightness only: `7A 0B 03 00 <brr_hi> <brr_lo>`.
pub fn brightness(brr1000: u16) -> (f: Vec<u8>)
    ensures
        f@ == sealed(seq![0x7Au8, 0x0B, 0x03, 0x00, tens(brr1000), units(brr1000)]),
        well_framed(f@),
{
    let (h, l) = bcd(brr1000);
    with_checksum(vec![PREFIX, ID_BRIGHTNESS, 0x03, 0x00, h, l])
}

/// HSI whole-light solid colour, a frame with a 2-byte size:
/// `7A 0D 00 0A <brr_hi> <brr_lo> 01 64 <hue_hi> <hue_lo> <sat> 00 01 00`.
pub fn hsi(brr1000: u16, hue: u16, sat: u8) -> (f: Vec<u8>)
    ensures
        f@ == sealed(
            seq![
                0x7Au8,
                0x0D,
                0x00,
                0x0A,
                tens(brr1000),
                units(brr1000),
                0x01,
                0x64,
                hi(min_of(hue as int, 360)),
                lo(min_of(hue as int, 360)),
                sat,
                0x00,
                0x01,
                0x00,
            ],
        ),
        checksummed(f@),
        f@[2] * 256 + f@[3] == f@.len() - 5,
{
    let (bh, bl) = bcd(brr1000);
    let hue: u16 = if hue > 360 {
        360
    } else {
        hue
    };
    with_checksum(
        vec![
            PREFIX,
            ID_COLOR,
            0x00,
            0x0A,
            bh,
            bl,
            0x01,
            LIGHTNESS,
            (hue / 256) as u8,
            (hue % 256) as u8,
            sat,
            0x00,
            0x01,
            0x00,
        ],
    )
}

} // verus!
