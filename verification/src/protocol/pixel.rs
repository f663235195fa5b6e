//! Per-segment pixel control (opcode `0xB0`, MAC-addressed): the mode that sets
//! different areas of a tube to different colours.
//!
//! A frame is `78 B0 <LEN> <MAC6> <effectData>`, with `LEN` the MAC and the
//! effect data. Effect data is `[effectId, subIndex, payload]`: sub-index 0 holds
//! scalar parameters, 1 the palette blocks 0..6, 2 the palette blocks 6..8.

use vstd::prelude::*;
use super::{
    checksummed, frames_of, gm_byte, gm_wire, lo, min_of, sealed, well_framed, with_checksum,
};

verus! {

const PREFIX: u8 = 0x78;

const TAG_PIXEL: u8 = 0xB0;

/// Default effect for per-segment colour.
pub const EFFECT_COLOR_REPLACEMENT: u8 = 1;

/// One palette colour block, three bytes on the wire.
#[derive(Debug, Clone, Copy, PartialEq, Eq, Structural)]
pub enum Block {
    /// HSI segment: hue 0..=359, saturation 0..=100.
    Hsi { hue: u16, sat: u8 },
    /// White segment: raw CCT value + GM (-50..=50).
    Cct { cct: u8, gm: i8 },
    /// Dark segment.
    Off,
}

impl Block {
    /// The three wire bytes. HSI is flagged by `0x10` in the first byte, whose
    /// low nibble is the hue's high byte; off is flagged by `0x20`.
    pub open spec fn wire(self) -> Seq<u8> {
        match self {
            Block::Hsi { hue, sat } => seq![
                (0x10 + hue % 360 / 256) as u8,
                (hue % 360 % 256) as u8,
                min_of(sat as int, 100) as u8,
            ],
            Block::Cct { cct, gm } => seq![0x00u8, cct, gm_wire(gm)],
            Block::Off => seq![0x20u8, 0x00, 0x00],
        }
    }

    /// Encode this block as its 3 wire bytes.
    pub fn bytes(self) -> (r: [u8; 3])
        ensures
            r@ == self.wire(),
    {
        match self {
            Block::Hsi { hue, sat } => {
                let hue: u16 = hue % 360;
                [
                    0x10 + (hue / 256) as u8,
                    (hue % 256) as u8,
                    if sat > 100 {
                        100
                    } else {
                        sat
                    },
                ]
            },
            Block::Cct { cct, gm } => [0x00, cct, gm_byte(gm)],
            Block::Off => [0x20, 0x00, 0x00],
        }
    }
}

/// The wire bytes of a palette, block after block.
pub open spec fn palette_bytes(blocks: Seq<Block>) -> Seq<u8>
    decreases blocks.len(),
{
    if blocks.len() == 0 {
        seq![]
    } else {
        palette_bytes(blocks.drop_last()) + blocks.last().wire()
    }
}

/// The pixel frame around effect data.
pub open spec fn pixel_frame(mac: Seq<u8>, data: Seq<u8>) -> Seq<u8> {
    sealed(seq![0x78u8, 0xB0, lo(6 + data.len() as int)] + mac + data)
}

/// The palette frame of an effect.
pub open spec fn palette_frame(mac: Seq<u8>, effect_id: u8, sub_index: u8, blocks: Seq<Block>) -> Seq<
    u8,
> {
    pixel_frame(mac, seq![effect_id, sub_index] + palette_bytes(blocks))
}

/// A percentage: the value, at most 100.
pub open spec fn pct(v: int) -> u8 {
    min_of(v, 100) as u8
}

proof fn lemma_palette_len(blocks: Seq<Block>)
    ensures
        palette_bytes(blocks).len() == 3 * blocks.len(),
    decreases blocks.len(),
{
    if blocks.len() > 0 {
        lemma_palette_len(blocks.drop_last());
    }
}

fn percent(v: u8) -> (r: u8)
    ensures
        r == pct(v as int),
{
    if v > 100 {
        100
    } else {
        v
    }
}

/// Wrap effect data into a full pixel frame.
fn frame(mac: [u8; 6], effect_data: &[u8]) -> (f: Vec<u8>)
    ensures
        f@ == pixel_frame(mac@, effect_data@),
        checksummed(f@),
        effect_data@.len() <= 249 ==> well_framed(f@),
{
    let len: u8 = ((6 + effect_data.len() % 256) % 256) as u8;
    let mut f: Vec<u8> = vec![PREFIX, TAG_PIXEL, len];
    f.extend_from_slice(mac.as_slice());
    f.extend_from_slice(effect_data);
    assert((6 + effect_data@.len() % 256) % 256 == (6 + effect_data@.len()) % 256);
    assert(f@ =~= seq![0x78u8, 0xB0, lo(6 + effect_data@.len() as int)] + mac@ + effect_data@);
    with_checksum(f)
}

/// Wrap arbitrary effect data into a full pixel frame, for effects this module
/// does not model.
pub fn raw_frame(mac: [u8; 6], effect_data: &[u8]) -> (f: Vec<u8>)
    ensures
        f@ == pixel_frame(mac@, effect_data@),
        checksummed(f@),
        effect_data@.len() <= 249 ==> well_framed(f@),
{
    frame(mac, effect_data)
}

/// The scalar parameters of effect 1:
/// `78 B0 0D <MAC6> 01 00 <bri> <colorNum> <speed> <dir> <running>`.
pub fn effect1_params(
    mac: [u8; 6],
    bri: u8,
    color_num: u8,
    speed: u8,
    dir: u8,
    running: u8,
) -> (f: Vec<u8>)
    ensures
        f@ == pixel_frame(
            mac@,
            seq![1u8, 0, pct(bri as int), color_num, speed, dir, running],
        ),
        well_framed(f@),
{
    let data: Vec<u8> = vec![
        EFFECT_COLOR_REPLACEMENT,
        0x00,
        percent(bri),
        color_num,
        speed,
        dir,
        running,
    ];
    frame(mac, &data)
}

/// The scalar parameters of a moving effect (3, 4 or 5):
/// `[wire, 0, colorBri, bgBri, way, speed, dir, movement, running]`.
#[allow(clippy::too_many_arguments)]
pub fn moving_params(
    mac: [u8; 6],
    wire: u8,
    color_bri: u8,
    bg_bri: u8,
    way: u8,
    speed: u8,
    dir: u8,
    movement: u8,
    running: u8,
) -> (f: Vec<u8>)
    ensures
        f@ == pixel_frame(
            mac@,
            seq![
                wire,
                0u8,
                pct(color_bri as int),
                pct(bg_bri as int),
                way,
                speed,
                dir,
                movement,
                running,
            ],
        ),
        well_framed(f@),
{
    let data: Vec<u8> = vec![
        wire,
        0x00,
        percent(color_bri),
        percent(bg_bri),
        way,
        speed,
        dir,
        movement,
        running,
    ];
    frame(mac, &data)
}

/// The scalar parameters of the fire effect (7):
/// `[7, 0, briLo, briHi, bgBri, speed, orientation, running]`.
pub fn fire_params(
    mac: [u8; 6],
    bri_lo: u8,
    bri_hi: u8,
    bg_bri: u8,
    speed: u8,
    orientation: u8,
    running: u8,
) -> (f: Vec<u8>)
    ensures
        f@ == pixel_frame(
            mac@,
            seq![
                7u8,
                0,
                pct(bri_lo as int),
                pct(bri_hi as int),
                pct(bg_bri as int),
                speed,
                orientation,
                running,
            ],
        ),
        well_framed(f@),
{
    let data: Vec<u8> = vec![
        7,
        0x00,
        percent(bri_lo),
        percent(bri_hi),
        percent(bg_bri),
        speed,
        orientation,
        running,
    ];
    frame(mac, &data)
}

/// A palette frame: `78 B0 <LEN> <MAC6> <effectId> <subIndex> <blocks>`.
pub fn palette(mac: [u8; 6], effect_id: u8, sub_index: u8, blocks: &[Block]) -> (f: Vec<u8>)
    ensures
        f@ == palette_frame(mac@, effect_id, sub_index, blocks@),
        checksummed(f@),
        blocks@.len() <= 82 ==> well_framed(f@),
{
    let mut data: Vec<u8> = vec![effect_id, sub_index];
    let mut i: usize = 0;
    while i < blocks.len()
        invariant
            i <= blocks.len(),
            data@ == seq![effect_id, sub_index] + palette_bytes(blocks@.take(i as int)),
        decreases blocks.len() - i,
    {
        assert(blocks@.take(i + 1).drop_last() =~= blocks@.take(i as int));
        let b: [u8; 3] = blocks[i].bytes();
        data.extend_from_slice(b.as_slice());
        i += 1;
        assert(data@ =~= seq![effect_id, sub_index] + palette_bytes(blocks@.take(i as int)));
    }
    assert(blocks@.take(blocks@.len() as int) =~= blocks@);
    proof {
        lemma_palette_len(blocks@);
    }
    frame(mac, &data)
}

/// Running state: play. It is the only useful one over a direct connection.
pub const RUN_PLAY: u8 = 1;

/// Effect ids that render over a direct connection.
pub const EFFECT_COLOR_REPLACEMENT_ID: u8 = 1;

pub const EFFECT_SINGLE_MOVING: u8 = 3;

pub const EFFECT_TWO_MOVING: u8 = 4;

pub const EFFECT_THREE_MOVING: u8 = 5;

pub const EFFECT_FIRE: u8 = 7;

/// The effect that `paint` renders for a requested id: the five working ids
/// themselves, colour replacement for anything else.
pub open spec fn rendered(effect: u8) -> u8 {
    if effect == 3 || effect == 4 || effect == 5 || effect == 7 {
        effect
    } else {
        1
    }
}

/// The effect id that [`paint`] really renders for `effect`.
pub fn rendered_effect(effect: u8) -> (r: u8)
    ensures
        r == rendered(effect),
{
    match effect {
        EFFECT_SINGLE_MOVING | EFFECT_TWO_MOVING | EFFECT_THREE_MOVING | EFFECT_FIRE => effect,
        _ => EFFECT_COLOR_REPLACEMENT,
    }
}

/// The block at `i`, or `other` where the palette is shorter.
pub open spec fn block_or(blocks: Seq<Block>, i: int, other: Block) -> Block {
    if i < blocks.len() {
        blocks[i]
    } else {
        other
    }
}

/// The palette of a moving effect with `n` colours: background (dark by
/// default), then `n` colours, red where the palette is short.
pub open spec fn moving_palette(blocks: Seq<Block>, n: int) -> Seq<Block> {
    Seq::new(
        (n + 1) as nat,
        |i: int|
            block_or(
                blocks,
                i,
                if i == 0 {
                    Block::Off
                } else {
                    Block::Hsi { hue: 0, sat: 100 }
                },
            ),
    )
}

/// The frames that render a palette, of which at most 8 blocks count: the
/// parameters of the effect, then its palette, split after six colours.
pub open spec fn paint_frames(
    mac: Seq<u8>,
    palette: Seq<Block>,
    bri: u8,
    effect: u8,
    speed: u8,
    dir: u8,
) -> Seq<Seq<u8>> {
    let blocks = palette.take(min_of(palette.len() as int, 8));
    let p = pct(bri as int);
    if effect == 3 || effect == 4 || effect == 5 {
        seq![
            pixel_frame(mac, seq![effect, 0u8, p, p, 0, speed, dir, 0, 1]),
            palette_frame(mac, effect, 1, moving_palette(blocks, effect - 2)),
        ]
    } else if effect == 7 {
        let half = pct(bri as int / 2);
        seq![
            pixel_frame(mac, seq![7u8, 0, half, p, half, speed, dir, 1]),
            palette_frame(
                mac,
                7,
                1,
                seq![
                    block_or(blocks, 0, Block::Off),
                    block_or(blocks, 1, Block::Hsi { hue: 30, sat: 100 }),
                ],
            ),
        ]
    } else {
        let params = pixel_frame(mac, seq![1u8, 0, p, blocks.len() as u8, speed, dir, 1]);
        if blocks.len() <= 6 {
            seq![params, palette_frame(mac, 1, 1, blocks)]
        } else {
            seq![
                params,
                palette_frame(mac, 1, 1, blocks.take(6)),
                palette_frame(mac, 1, 2, blocks.skip(6)),
            ]
        }
    }
}

/// Build the ordered frames that render `blocks` across the tube with pixel
/// `effect` (anything but the five working ids renders as colour replacement):
/// the parameters, then the palette. `bri` is master brightness, `speed` the
/// animation rate, `dir` the flow direction or fire orientation.
///
/// - Colour replacement: `blocks` is the palette, up to 8 bands.
/// - Moving: `blocks[0]` is the background, the rest the 1/2/3 moving colours.
/// - Fire: `blocks[0]` is the background, `blocks[1]` the fire colour.
pub fn paint(mac: [u8; 6], blocks: &[Block], bri: u8, effect: u8, speed: u8, dir: u8) -> (r: Vec<
    Vec<u8>,
>)
    ensures
        frames_of(r@) == paint_frames(mac@, blocks@, bri, effect, speed, dir),
        forall|i: int| 0 <= i < r@.len() ==> well_framed(#[trigger] r@[i]@),
{
    let count: usize = if blocks.len() < 8 {
        blocks.len()
    } else {
        8
    };
    let ghost all = blocks@;
    let blocks: &[Block] = vstd::slice::slice_subrange(blocks, 0, count);
    assert(blocks@ =~= all.take(min_of(all.len() as int, 8)));
    let bg: Block = if blocks.len() > 0 {
        blocks[0]
    } else {
        Block::Off
    };
    match effect {
        EFFECT_SINGLE_MOVING | EFFECT_TWO_MOVING | EFFECT_THREE_MOVING => {
            let n: usize = (effect - 2) as usize;
            let params: Vec<u8> = moving_params(mac, effect, bri, bri, 0, speed, dir, 0, RUN_PLAY);
            let mut colours: Vec<Block> = vec![bg];
            let mut i: usize = 1;
            while i <= n
                invariant
                    1 <= i <= n + 1,
                    n <= 3,
                    colours@.len() == i,
                    forall|k: int|
                        0 <= k < i ==> #[trigger] colours@[k] == moving_palette(blocks@, n as int)[k],
                decreases n + 1 - i,
            {
                colours.push(
                    if i < blocks.len() {
                        blocks[i]
                    } else {
                        Block::Hsi { hue: 0, sat: 100 }
                    },
                );
                i += 1;
            }
            assert(colours@ =~= moving_palette(blocks@, n as int));
            let second: Vec<u8> = palette(mac, effect, 1, &colours);
            let r: Vec<Vec<u8>> = vec![params, second];
            assert(frames_of(r@) =~= seq![params@, second@]);
            r
        },
        EFFECT_FIRE => {
            let fire: Block = if blocks.len() > 1 {
                blocks[1]
            } else {
                Block::Hsi { hue: 30, sat: 100 }
            };
            let params: Vec<u8> = fire_params(mac, bri / 2, bri, bri / 2, speed, dir, RUN_PLAY);
            let pair: Vec<Block> = vec![bg, fire];
            let second: Vec<u8> = palette(mac, EFFECT_FIRE, 1, &pair);
            let r: Vec<Vec<u8>> = vec![params, second];
            assert(frames_of(r@) =~= seq![params@, second@]);
            r
        },
        _ => {
            let params: Vec<u8> = effect1_params(
                mac,
                bri,
                blocks.len() as u8,
                speed,
                dir,
                RUN_PLAY,
            );
            if blocks.len() <= 6 {
                let first: Vec<u8> = palette(mac, EFFECT_COLOR_REPLACEMENT, 1, blocks);
                let r: Vec<Vec<u8>> = vec![params, first];
                assert(frames_of(r@) =~= seq![params@, first@]);
                r
            } else {
                let head: &[Block] = vstd::slice::slice_subrange(blocks, 0, 6);
                let tail: &[Block] = vstd::slice::slice_subrange(blocks, 6, blocks.len());
                assert(head@ =~= blocks@.take(6));
                assert(tail@ =~= blocks@.skip(6));
                let first: Vec<u8> = palette(mac, EFFECT_COLOR_REPLACEMENT, 1, head);
                let second: Vec<u8> = palette(mac, EFFECT_COLOR_REPLACEMENT, 2, tail);
                let r: Vec<Vec<u8>> = vec![params, first, second];
                assert(frames_of(r@) =~= seq![params@, first@, second@]);
                r
            }
        },
    }
}

/// Every frame of a rendering names the effect that [`rendered_effect`] reports.
pub proof fn law_paint_sends_the_rendered_effect(
    mac: Seq<u8>,
    blocks: Seq<Block>,
    bri: u8,
    effect: u8,
    speed: u8,
    dir: u8,
    i: int,
)
    requires
        mac.len() == 6,
        0 <= i < paint_frames(mac, blocks, bri, effect, speed, dir).len(),
    ensures
        paint_frames(mac, blocks, bri, effect, speed, dir)[i][9] == rendered(effect),
{
}

} // verus!
