//! What holds of the frames on the wire, byte by byte.

use vstd::prelude::*;
use vstd::string::*;
use super::home;
use super::infinity::{effect_data, fx_direct_frame, fx_frame};
use super::pixel::{
    moving_palette, paint_frames, palette_bytes, palette_frame, pixel_frame, Block,
};
use super::queries::query_frame;
use super::replies::{reply_of, Reply};
use super::{
    byte_sum, checksummed, ck, default_state, frames_of, gm_wire, hi, lo, min_of, sealed,
    well_framed, LightState, Mode,
};
use crate::text::laws::{chained, law_pieces_are_parts};
use crate::text::{dec, has_part, hex2, int_dec, signed_dec};

verus! {

broadcast use vstd::string::group_string_axioms;

/// The 16-bit value at `i`, low byte first.
pub open spec fn low_first(f: Seq<u8>, i: int) -> int {
    f[i] + 256 * f[i + 1]
}

/// The 16-bit value at `i`, high byte first.
pub open spec fn high_first(f: Seq<u8>, i: int) -> int {
    256 * f[i] + f[i + 1]
}

/// Whether a stretch of a frame holds a MAC, first byte first.
pub open spec fn holds_mac(f: Seq<u8>, at: int, mac: Seq<u8>) -> bool {
    &&& f[at] == mac[0]
    &&& f[at + 1] == mac[1]
    &&& f[at + 2] == mac[2]
    &&& f[at + 3] == mac[3]
    &&& f[at + 4] == mac[4]
    &&& f[at + 5] == mac[5]
}

/// The checksum of nothing is 0, and every further byte adds itself, modulo 256.
pub proof fn law_checksum_adds_each_byte(body: Seq<u8>, b: u8)
    ensures
        ck(Seq::<u8>::empty()) == 0,
        ck(body.push(b)) == ck(body) + b || ck(body.push(b)) == ck(body) + b - 256,
{
    assert(body.push(b).drop_last() =~= body);
    let s = byte_sum(body) as int;
    assert((s + b) % 256 == (s % 256 + b) % 256);
}

/// The checksum does not depend on the order of the bytes.
pub proof fn law_checksum_ignores_the_order(head: Seq<u8>, tail: Seq<u8>)
    ensures
        ck(head + tail) == ck(tail + head),
{
    super::lemma_sum_concat(head, tail);
    super::lemma_sum_concat(tail, head);
}

/// A sealed frame is its body, byte for byte, and one byte more.
pub proof fn law_sealing_keeps_the_body(body: Seq<u8>, i: int)
    requires
        0 <= i < body.len(),
    ensures
        sealed(body).len() == body.len() + 1,
        sealed(body)[i] == body[i],
        checksummed(sealed(body)),
{
    super::lemma_sealed(body);
}

/// The two bytes of a 16-bit value give it back.
pub proof fn law_two_bytes_give_the_value_back(v: int)
    requires
        0 <= v <= 0xFFFF,
    ensures
        lo(v) + 256 * hi(v) == v,
{
}

/// A green/magenta value within range is sent as itself plus 50, so 0 is the middle of
/// 0..=100; a value past either end is sent as that end.
pub proof fn law_tint_on_the_wire(gm: i8)
    ensures
        -50 <= gm <= 50 ==> gm_wire(gm) == gm + 50,
        gm < -50 ==> gm_wire(gm) == 0,
        gm > 50 ==> gm_wire(gm) == 100,
{
}

/// The two digit bytes of a Home brightness read back as `tens * 10 + units`, and the
/// second is a digit. A brightness past 1000 is sent as 1000.
pub proof fn law_home_brightness_reads_back(brr1000: u16)
    ensures
        brr1000 <= 1000 ==> home::tens(brr1000) * 10 + home::units(brr1000) == brr1000,
        brr1000 > 1000 ==> home::tens(brr1000) == 100 && home::units(brr1000) == 0,
        home::units(brr1000) <= 9,
{
}

/// A white effect: id, brightness, colour temperature, tint (not for lightning), speed.
pub proof fn law_white_effects(
    id: u8,
    bri: u8,
    cct: u8,
    gm: i8,
    hue: u16,
    sat: u8,
    speed: u8,
    extra: u8,
    val2: u16,
)
    requires
        -50 <= gm <= 50,
        1 <= speed <= 10,
    ensures
        ({
            let d = effect_data(id, bri, cct, gm, hue, sat, speed, extra, val2);
            &&& id == 2 || id == 3 || id == 6 || id == 8 ==> {
                &&& d.len() == 5
                &&& d[0] == id
                &&& d[1] == bri
                &&& d[2] == cct
                &&& d[3] == gm + 50
                &&& d[4] == speed
            }
            &&& id == 4 && 1 <= extra <= 10 ==> {
                &&& d.len() == 6
                &&& d[0] == 4
                &&& d[1] == bri
                &&& d[2] == cct
                &&& d[3] == gm + 50
                &&& d[4] == speed
                &&& d[5] == extra
            }
            &&& id == 5 || id == 15 ==> {
                &&& d.len() == 6
                &&& d[0] == id
                &&& d[1] == 0
                &&& d[2] == bri
                &&& d[3] == cct
                &&& d[4] == gm + 50
                &&& d[5] == speed
            }
            &&& id == 11 && 1 <= extra <= 10 ==> {
                &&& d.len() == 7
                &&& d[0] == 11
                &&& d[1] == 0
                &&& d[2] == bri
                &&& d[3] == cct
                &&& d[4] == gm + 50
                &&& d[5] == speed
                &&& d[6] == extra
            }
            &&& id == 13 && val2 <= 255 ==> {
                &&& d.len() == 5
                &&& d[0] == 13
                &&& d[1] == bri
                &&& d[2] == cct
                &&& d[3] == val2
                &&& d[4] == speed
            }
            &&& id == 1 || id == 0 || id > 18 ==> {
                &&& d.len() == 4
                &&& d[0] == 1
                &&& d[1] == bri
                &&& d[2] == cct
                &&& d[3] == speed
            }
        }),
{
}

/// A colour effect: hues stand low byte first, and read back as they were given.
pub proof fn law_colour_effects(
    id: u8,
    bri: u8,
    cct: u8,
    gm: i8,
    hue: u16,
    sat: u8,
    speed: u8,
    extra: u8,
    val2: u16,
)
    requires
        1 <= speed <= 10,
        hue <= 360,
    ensures
        ({
            let d = effect_data(id, bri, cct, gm, hue, sat, speed, extra, val2);
            &&& id == 7 || id == 9 ==> {
                &&& d.len() == 6
                &&& d[0] == id
                &&& d[1] == bri
                &&& low_first(d, 2) == hue
                &&& d[4] == sat
                &&& d[5] == speed
            }
            &&& id == 12 && val2 <= 360 ==> {
                &&& d.len() == 7
                &&& d[0] == 12
                &&& d[1] == bri
                &&& low_first(d, 2) == hue
                &&& low_first(d, 4) == val2
                &&& d[6] == speed
            }
            &&& id == 14 && extra <= 1 ==> {
                &&& d.len() == 8
                &&& d[0] == 14
                &&& d[1] == extra
                &&& d[2] == 0
                &&& d[3] == bri
                &&& low_first(d, 4) == hue
                &&& d[6] == cct
                &&& d[7] == speed
            }
        }),
{
}

/// The effects with colours of their own: brightness, the effect's choice, speed.
pub proof fn law_scene_effects(
    id: u8,
    bri: u8,
    cct: u8,
    gm: i8,
    hue: u16,
    sat: u8,
    speed: u8,
    extra: u8,
    val2: u16,
)
    requires
        1 <= speed <= 10,
    ensures
        ({
            let d = effect_data(id, bri, cct, gm, hue, sat, speed, extra, val2);
            &&& id == 10 && extra <= 4 ==> {
                &&& d.len() == 4
                &&& d[0] == 10
                &&& d[1] == bri
                &&& d[2] == extra
                &&& d[3] == speed
            }
            &&& id == 16 && extra <= 2 ==> {
                &&& d.len() == 5
                &&& d[0] == 16
                &&& d[1] == bri
                &&& d[2] == extra
                &&& d[3] == speed
                &&& d[4] == 5
            }
            &&& id == 17 && extra <= 2 ==> {
                &&& d.len() == 4
                &&& d[0] == 17
                &&& d[1] == bri
                &&& d[2] == extra
                &&& d[3] == speed
            }
            &&& id == 18 ==> d.len() == 2 && d[0] == 18 && d[1] == bri
        }),
{
}

/// A parameter past the end of its range is sent as that end: speed 1..=10, tint
/// -50..=50, hues up to 360, and an effect's own byte up to what the effect allows.
pub proof fn law_effect_parameters_are_held_to_their_range(
    id: u8,
    bri: u8,
    cct: u8,
    gm: i8,
    hue: u16,
    sat: u8,
    speed: u8,
    extra: u8,
    val2: u16,
)
    ensures
        ({
            let d = effect_data(id, bri, cct, gm, hue, sat, speed, extra, val2);
            &&& speed < 1 ==> d == effect_data(id, bri, cct, gm, hue, sat, 1, extra, val2)
            &&& speed > 10 ==> d == effect_data(id, bri, cct, gm, hue, sat, 10, extra, val2)
            &&& gm < -50 ==> d == effect_data(id, bri, cct, -50i8, hue, sat, speed, extra, val2)
            &&& gm > 50 ==> d == effect_data(id, bri, cct, 50, hue, sat, speed, extra, val2)
            &&& hue > 360 ==> d == effect_data(id, bri, cct, gm, 360, sat, speed, extra, val2)
            &&& val2 > 360 && id == 12 ==> d == effect_data(
                id,
                bri,
                cct,
                gm,
                hue,
                sat,
                speed,
                extra,
                360,
            )
            &&& (id == 4 || id == 11) && extra < 1 ==> d == effect_data(
                id,
                bri,
                cct,
                gm,
                hue,
                sat,
                speed,
                1,
                val2,
            )
            &&& (id == 4 || id == 11) && extra > 10 ==> d == effect_data(
                id,
                bri,
                cct,
                gm,
                hue,
                sat,
                speed,
                10,
                val2,
            )
            &&& id == 10 && extra > 4 ==> d == effect_data(
                id,
                bri,
                cct,
                gm,
                hue,
                sat,
                speed,
                4,
                val2,
            )
            &&& id == 14 && extra > 1 ==> d == effect_data(
                id,
                bri,
                cct,
                gm,
                hue,
                sat,
                speed,
                1,
                val2,
            )
            &&& (id == 16 || id == 17) && extra > 2 ==> d == effect_data(
                id,
                bri,
                cct,
                gm,
                hue,
                sat,
                speed,
                2,
                val2,
            )
        }),
{
}

/// An effect frame is addressed and tagged, and its length byte counts what follows it.
pub proof fn law_effect_frames(mac: Seq<u8>, data: Seq<u8>, i: int)
    requires
        mac.len() == 6,
        0 <= i < data.len() <= 200,
    ensures
        ({
            let f = fx_frame(mac, data);
            &&& f.len() == data.len() + 11
            &&& f[0] == 0x78 && f[1] == 0x91
            &&& f[2] == data.len() + 7
            &&& holds_mac(f, 3, mac)
            &&& f[9] == 0x8B
            &&& f[10 + i] == data[i]
            &&& checksummed(f)
        }),
        ({
            let f = fx_direct_frame(data);
            &&& f.len() == data.len() + 4
            &&& f[0] == 0x78 && f[1] == 0x8B
            &&& f[2] == data.len()
            &&& f[3 + i] == data[i]
            &&& checksummed(f)
        }),
{
    super::lemma_sealed(seq![0x78u8, 0x91, (data.len() + 7) as u8] + mac + seq![0x8Bu8] + data);
    super::lemma_sealed(seq![0x78u8, 0x8B, data.len() as u8] + data);
}

/// A query is addressed to its light, and its length byte counts what follows it.
pub proof fn law_query_frames(op: u8, mac: Seq<u8>, extra: Seq<u8>, i: int)
    requires
        mac.len() == 6,
        extra.len() <= 200,
    ensures
        ({
            let f = query_frame(op, mac, extra);
            &&& f.len() == extra.len() + 10
            &&& f[0] == 0x78 && f[1] == op
            &&& f[2] == extra.len() + 6
            &&& holds_mac(f, 3, mac)
            &&& 0 <= i < extra.len() ==> f[9 + i] == extra[i]
            &&& checksummed(f)
        }),
{
    super::lemma_sealed(seq![0x78u8, op, (6 + extra.len()) as u8] + mac + extra);
}

/// A palette block on the wire: the top nibble of the first byte tells the three kinds
/// apart, and the rest reads back as the block, its hue modulo 360, its saturation up to
/// 100 and its tint within -50..=50.
pub proof fn law_blocks_read_back(hue: u16, sat: u8, cct: u8, gm: i8)
    ensures
        ({
            let w = (Block::Hsi { hue, sat }).wire();
            &&& w.len() == 3
            &&& w[0] == 0x10 || w[0] == 0x11
            &&& (w[0] - 0x10) * 256 + w[1] < 360
            &&& (hue - ((w[0] - 0x10) * 256 + w[1])) % 360 == 0
            &&& sat <= 100 ==> w[2] == sat
            &&& sat > 100 ==> w[2] == 100
        }),
        ({
            let w = (Block::Cct { cct, gm }).wire();
            &&& w.len() == 3
            &&& w[0] == 0
            &&& w[1] == cct
            &&& -50 <= gm <= 50 ==> w[2] == gm + 50
            &&& gm < -50 ==> w[2] == 0
            &&& gm > 50 ==> w[2] == 100
        }),
        ({
            let w = Block::Off.wire();
            w.len() == 3 && w[0] == 0x20 && w[1] == 0 && w[2] == 0
        }),
{
    let h = hue as int % 360;
    assert(h / 256 * 256 + h % 256 == h);
    assert((hue as int - h) % 360 == 0);
}

/// Block `k` of a palette stands at bytes `3 * k`, `3 * k + 1` and `3 * k + 2`.
pub proof fn law_palettes_keep_the_order(blocks: Seq<Block>, k: int)
    requires
        0 <= k < blocks.len(),
    ensures
        palette_bytes(blocks).len() == 3 * blocks.len(),
        palette_bytes(blocks)[3 * k] == blocks[k].wire()[0],
        palette_bytes(blocks)[3 * k + 1] == blocks[k].wire()[1],
        palette_bytes(blocks)[3 * k + 2] == blocks[k].wire()[2],
    decreases blocks.len(),
{
    let init = blocks.drop_last();
    lemma_palette_len(init);
    assert(blocks.last().wire().len() == 3);
    if k < blocks.len() - 1 {
        law_palettes_keep_the_order(init, k);
        assert(init[k] == blocks[k]);
    }
}

proof fn lemma_palette_len(blocks: Seq<Block>)
    ensures
        palette_bytes(blocks).len() == 3 * blocks.len(),
    decreases blocks.len(),
{
    if blocks.len() > 0 {
        lemma_palette_len(blocks.drop_last());
    }
}

/// A pixel frame is addressed to its light, and its length byte counts what follows it.
pub proof fn law_pixel_frames(mac: Seq<u8>, data: Seq<u8>, i: int)
    requires
        mac.len() == 6,
        0 <= i < data.len() <= 200,
    ensures
        ({
            let f = pixel_frame(mac, data);
            &&& f.len() == data.len() + 10
            &&& f[0] == 0x78 && f[1] == 0xB0
            &&& f[2] == data.len() + 6
            &&& holds_mac(f, 3, mac)
            &&& f[9 + i] == data[i]
            &&& checksummed(f)
        }),
{
    super::lemma_sealed(seq![0x78u8, 0xB0, lo(6 + data.len() as int)] + mac + data);
}

/// The palette bytes of a palette frame: what stands between its effect id and
/// sub-index, at bytes 9 and 10, and its checksum.
pub open spec fn palette_of(f: Seq<u8>) -> Seq<u8> {
    f.subrange(11, f.len() - 1)
}

/// The palette bytes of all frames behind the first, in send order.
pub open spec fn palettes_of(frames: Seq<Seq<u8>>) -> Seq<u8> {
    if frames.len() == 2 {
        palette_of(frames[1])
    } else {
        palette_of(frames[1]) + palette_of(frames[2])
    }
}

/// Colour replacement sends every block, the first eight of a longer palette, in order:
/// the palette bytes of the frames, joined in send order, are three for each block, and
/// block `k` stands at `3 * k`. The parameter frame says how many there are. The palette
/// frames are numbered 1 and 2; the first holds no more than six blocks, and the second
/// is sent only when the first is full.
pub proof fn law_colour_replacement_sends_every_block(
    mac: Seq<u8>,
    blocks: Seq<Block>,
    bri: u8,
    effect: u8,
    speed: u8,
    dir: u8,
    k: int,
)
    requires
        mac.len() == 6,
        effect != 3 && effect != 4 && effect != 5 && effect != 7,
        0 <= k < blocks.len(),
        k < 8,
    ensures
        ({
            let fs = paint_frames(mac, blocks, bri, effect, speed, dir);
            let sent = palettes_of(fs);
            &&& sent[3 * k] == blocks[k].wire()[0]
            &&& sent[3 * k + 1] == blocks[k].wire()[1]
            &&& sent[3 * k + 2] == blocks[k].wire()[2]
            &&& blocks.len() <= 8 ==> sent.len() == 3 * blocks.len() && fs[0][12] == blocks.len()
            &&& blocks.len() > 8 ==> sent.len() == 24 && fs[0][12] == 8
            &&& fs.len() == if blocks.len() <= 6 {
                2int
            } else {
                3int
            }
            &&& fs[1][9] == 1 && fs[1][10] == 1
            &&& fs.len() == 3 ==> fs[2][9] == 1 && fs[2][10] == 2 && palette_of(fs[1]).len() == 18
        }),
{
    let used = blocks.take(min_of(blocks.len() as int, 8));
    lemma_palette_len(used);
    assert(used[k] == blocks[k]);
    assert(blocks[k].wire().len() == 3);
    if used.len() <= 6 {
        law_palettes_keep_the_order(used, k);
        let f = palette_frame(mac, 1, 1, used);
        assert(palette_of(f) =~= palette_bytes(used));
    } else {
        let (head, tail) = (used.take(6), used.skip(6));
        lemma_palette_len(head);
        lemma_palette_len(tail);
        assert(palette_of(palette_frame(mac, 1, 1, head)) =~= palette_bytes(head));
        assert(palette_of(palette_frame(mac, 1, 2, tail)) =~= palette_bytes(tail));
        if k < 6 {
            law_palettes_keep_the_order(head, k);
        } else {
            law_palettes_keep_the_order(tail, k - 6);
        }
    }
}

/// A palette with no block is an empty palette frame.
pub proof fn law_colour_replacement_of_nothing(
    mac: Seq<u8>,
    bri: u8,
    effect: u8,
    speed: u8,
    dir: u8,
)
    requires
        mac.len() == 6,
        effect != 3 && effect != 4 && effect != 5 && effect != 7,
    ensures
        ({
            let fs = paint_frames(mac, Seq::empty(), bri, effect, speed, dir);
            fs.len() == 2 && palette_of(fs[1]).len() == 0 && fs[0][12] == 0
        }),
{
    let used = Seq::<Block>::empty().take(0);
    lemma_palette_len(used);
    assert(palette_of(palette_frame(mac, 1, 1, used)).len() == 0);
}

/// The parameters of a rendering stand where the lights read them: for colour
/// replacement brightness, count, speed, direction, running; for a moving effect both
/// brightnesses, the way, speed, direction, movement, running; for fire its low, its
/// high and its background brightness, speed, orientation, running.
pub proof fn law_rendering_parameters(
    mac: Seq<u8>,
    blocks: Seq<Block>,
    bri: u8,
    effect: u8,
    speed: u8,
    dir: u8,
)
    requires
        mac.len() == 6,
        bri <= 100,
    ensures
        ({
            let f = paint_frames(mac, blocks, bri, effect, speed, dir)[0];
            &&& f[0] == 0x78 && f[1] == 0xB0
            &&& f[2] == f.len() - 4
            &&& holds_mac(f, 3, mac)
            &&& f[10] == 0
            &&& effect == 3 || effect == 4 || effect == 5 ==> {
                &&& f.len() == 19
                &&& f[9] == effect
                &&& f[11] == bri && f[12] == bri
                &&& f[13] == 0
                &&& f[14] == speed
                &&& f[15] == dir
                &&& f[16] == 0
                &&& f[17] == 1
            }
            &&& effect == 7 ==> {
                &&& f.len() == 18
                &&& f[9] == 7
                &&& bri - 1 <= 2 * f[11] <= bri
                &&& f[12] == bri
                &&& f[13] == f[11]
                &&& f[14] == speed
                &&& f[15] == dir
                &&& f[16] == 1
            }
            &&& effect != 3 && effect != 4 && effect != 5 && effect != 7 ==> {
                &&& f.len() == 17
                &&& f[9] == 1
                &&& f[11] == bri
                &&& f[13] == speed
                &&& f[14] == dir
                &&& f[15] == 1
            }
        }),
{
}

/// A moving effect sends its background and one, two or three colours, in the order of
/// the palette. A missing background is dark, a missing colour red.
pub proof fn law_moving_effects_send_their_colours(
    mac: Seq<u8>,
    blocks: Seq<Block>,
    bri: u8,
    effect: u8,
    speed: u8,
    dir: u8,
    k: int,
)
    requires
        mac.len() == 6,
        effect == 3 || effect == 4 || effect == 5,
        0 <= k <= effect - 2,
    ensures
        ({
            let fs = paint_frames(mac, blocks, bri, effect, speed, dir);
            let sent = palette_of(fs[1]);
            let block = if k < blocks.len() {
                blocks[k]
            } else if k == 0 {
                Block::Off
            } else {
                Block::Hsi { hue: 0, sat: 100 }
            };
            &&& fs.len() == 2
            &&& fs[1][9] == effect && fs[1][10] == 1
            &&& sent.len() == 3 * (effect - 1)
            &&& sent[3 * k] == block.wire()[0]
            &&& sent[3 * k + 1] == block.wire()[1]
            &&& sent[3 * k + 2] == block.wire()[2]
        }),
{
    let used = blocks.take(min_of(blocks.len() as int, 8));
    let colours = moving_palette(used, effect - 2);
    lemma_palette_len(colours);
    law_palettes_keep_the_order(colours, k);
    assert(palette_of(palette_frame(mac, effect, 1, colours)) =~= palette_bytes(colours));
}

/// Fire sends its background, dark by default, and then its colour, orange by default.
pub proof fn law_fire_sends_background_and_colour(
    mac: Seq<u8>,
    blocks: Seq<Block>,
    bri: u8,
    speed: u8,
    dir: u8,
)
    requires
        mac.len() == 6,
    ensures
        ({
            let fs = paint_frames(mac, blocks, bri, 7, speed, dir);
            let sent = palette_of(fs[1]);
            &&& fs.len() == 2
            &&& fs[1][9] == 7 && fs[1][10] == 1
            &&& sent.len() == 6
            &&& blocks.len() > 0 ==> sent.take(3) == blocks[0].wire()
            &&& blocks.len() == 0 ==> sent.take(3) == Block::Off.wire()
            &&& blocks.len() > 1 ==> sent.skip(3) == blocks[1].wire()
            &&& blocks.len() <= 1 ==> sent.skip(3) == (Block::Hsi { hue: 30, sat: 100 }).wire()
        }),
{
    let used = blocks.take(min_of(blocks.len() as int, 8));
    let pair = seq![
        if used.len() > 0 {
            used[0]
        } else {
            Block::Off
        },
        if used.len() > 1 {
            used[1]
        } else {
            Block::Hsi { hue: 30, sat: 100 }
        },
    ];
    lemma_palette_len(pair);
    law_palettes_keep_the_order(pair, 0);
    law_palettes_keep_the_order(pair, 1);
    assert(pair[0].wire().len() == 3 && pair[1].wire().len() == 3);
    let fs = paint_frames(mac, blocks, bri, 7, speed, dir);
    let sent = palette_of(fs[1]);
    assert(sent =~= palette_bytes(pair));
    assert(sent.take(3) =~= pair[0].wire());
    assert(sent.skip(3) =~= pair[1].wire());
}

/// What a notification says, by the bytes at its reply's places.
pub proof fn law_replies_read_their_bytes(data: Seq<u8>)
    requires
        3 <= data.len() < 3 + data[2] + 1,
        data[0] == 0x78,
    ensures
        reply_of(data) == (if data[1] == 0x00 && data.len() >= 8 {
            Some(Reply::Version { major: data[5], minor: data[6], patch: data[7], by_mac: false })
        } else if data[1] == 0x08 && data.len() >= 14 {
            Some(
                Reply::Version { major: data[11], minor: data[12], patch: data[13], by_mac: true },
            )
        } else if data[1] == 0x02 && data.len() >= 4 {
            Some(Reply::Power { on: data[3] == 1 })
        } else if data[1] == 0x04 && data.len() >= 11 {
            Some(Reply::State { mode: data[9], on: data[10] == 1 })
        } else if data[1] == 0x05 && data.len() >= 10 && data[9] <= 100 {
            Some(Reply::Battery { percent: data[9] })
        } else if data[1] == 0x05 && data.len() >= 10 {
            Some(Reply::ExternalPower { raw: data[9] })
        } else if data[1] == 0x12 && data.len() >= 10 {
            Some(Reply::Temperature { celsius: (data[9] - 50) as i16 })
        } else {
            None
        }),
{
}

/// Whether a notification is of another kind, too short, or whole with a wrong checksum:
/// then it says nothing. A whole one with the right checksum says what the same bytes
/// say when they are cut short of their declared length.
pub proof fn law_replies_are_checked(data: Seq<u8>, n: int)
    requires
        data.len() >= 3,
        n == data[2],
    ensures
        data[0] != 0x78 ==> reply_of(data) is None,
        data.len() > 3 + n && data[3 + n] != ck(data.subrange(0, 3 + n)) ==> reply_of(data) is None,
        data[0] == 0x78 && data.len() > 3 + n && data[3 + n] == ck(data.subrange(0, 3 + n))
            && data.len() < 200 ==> reply_of(data) == reply_of(data.update(2, 255)),
{
    assert(data.take(3 + n) =~= data.subrange(0, 3 + n));
}

/// The log line of a white state says its kelvin, its brightness and its tint.
pub proof fn law_white_summary(st: LightState)
    requires
        st.mode == Mode::Cct,
    ensures
        has_part(st.summary_text(), "CCT "@ + dec(st.cct as nat * 100) + "K @ "@),
        has_part(st.summary_text(), "K @ "@ + dec(st.brightness as nat) + "% gm"@),
        has_part(st.summary_text(), dec(st.brightness as nat) + "% gm"@ + signed_dec(st.gm as int)),
{
    let p = seq![
        "CCT "@,
        dec(st.cct as nat * 100),
        "K @ "@,
        dec(st.brightness as nat),
        "% gm"@,
        signed_dec(st.gm as int),
    ];
    reveal_with_fuel(chained, 7);
    assert(st.summary_text() =~= chained(p, 6));
    law_pieces_are_parts(p, 6, 0);
    law_pieces_are_parts(p, 6, 2);
    law_pieces_are_parts(p, 6, 3);
}

/// The log line of a colour says its hue, its saturation and its brightness.
pub proof fn law_colour_summary(st: LightState)
    requires
        st.mode == Mode::Hsi,
    ensures
        has_part(st.summary_text(), "HSI hue="@ + dec(st.hue as nat) + " sat="@),
        has_part(st.summary_text(), " sat="@ + dec(st.sat as nat) + " @ "@),
        has_part(st.summary_text(), " @ "@ + dec(st.brightness as nat) + "%"@),
{
    let p = seq![
        "HSI hue="@,
        dec(st.hue as nat),
        " sat="@,
        dec(st.sat as nat),
        " @ "@,
        dec(st.brightness as nat),
        "%"@,
    ];
    reveal_with_fuel(chained, 8);
    assert(st.summary_text() =~= chained(p, 7));
    law_pieces_are_parts(p, 7, 0);
    law_pieces_are_parts(p, 7, 2);
    law_pieces_are_parts(p, 7, 4);
}

/// The log line of a coordinate says x, y and the brightness.
pub proof fn law_xy_summary(st: LightState)
    requires
        st.mode == Mode::Xy,
    ensures
        has_part(st.summary_text(), "XY x="@ + dec(st.x as nat) + " y="@),
        has_part(st.summary_text(), " y="@ + dec(st.y as nat) + " @ "@),
        has_part(st.summary_text(), " @ "@ + dec(st.brightness as nat) + "%"@),
{
    let p = seq![
        "XY x="@,
        dec(st.x as nat),
        " y="@,
        dec(st.y as nat),
        " @ "@,
        dec(st.brightness as nat),
        "%"@,
    ];
    reveal_with_fuel(chained, 8);
    assert(st.summary_text() =~= chained(p, 7));
    law_pieces_are_parts(p, 7, 0);
    law_pieces_are_parts(p, 7, 2);
    law_pieces_are_parts(p, 7, 4);
}

/// The log line of LED channels says each of them and the brightness.
#[verifier::rlimit(50)]
pub proof fn law_led_summary(st: LightState)
    requires
        st.mode == Mode::Rgbcw,
    ensures
        has_part(st.summary_text(), "RGBCW r="@ + dec(st.r as nat) + " g="@),
        has_part(st.summary_text(), " g="@ + dec(st.g as nat) + " b="@),
        has_part(st.summary_text(), " b="@ + dec(st.b as nat) + " cw="@),
        has_part(st.summary_text(), " cw="@ + dec(st.cw as nat) + " ww="@),
        has_part(st.summary_text(), " ww="@ + dec(st.ww as nat) + " @ "@),
        has_part(st.summary_text(), " @ "@ + dec(st.brightness as nat) + "%"@),
{
    let p = seq![
        "RGBCW r="@,
        dec(st.r as nat),
        " g="@,
        dec(st.g as nat),
        " b="@,
        dec(st.b as nat),
        " cw="@,
        dec(st.cw as nat),
        " ww="@,
        dec(st.ww as nat),
        " @ "@,
        dec(st.brightness as nat),
        "%"@,
    ];
    reveal_with_fuel(chained, 14);
    assert(st.summary_text() =~= chained(p, 13));
    law_pieces_are_parts(p, 13, 0);
    law_pieces_are_parts(p, 13, 2);
    law_pieces_are_parts(p, 13, 4);
    law_pieces_are_parts(p, 13, 6);
    law_pieces_are_parts(p, 13, 8);
    law_pieces_are_parts(p, 13, 10);
}

/// The log line of an effect says its id, its speed and its brightness.
pub proof fn law_effect_summary(st: LightState)
    requires
        st.mode == Mode::Fx,
    ensures
        has_part(st.summary_text(), "FX #"@ + dec(st.fx_id as nat) + " speed="@),
        has_part(st.summary_text(), " speed="@ + dec(st.fx_speed as nat) + " @ "@),
        has_part(st.summary_text(), " @ "@ + dec(st.brightness as nat) + "%"@),
{
    let p = seq![
        "FX #"@,
        dec(st.fx_id as nat),
        " speed="@,
        dec(st.fx_speed as nat),
        " @ "@,
        dec(st.brightness as nat),
        "%"@,
    ];
    reveal_with_fuel(chained, 8);
    assert(st.summary_text() =~= chained(p, 7));
    law_pieces_are_parts(p, 7, 0);
    law_pieces_are_parts(p, 7, 2);
    law_pieces_are_parts(p, 7, 4);
}

/// The log line of a pixel state says its effect, how many segments there are, its speed and
/// its brightness.
pub proof fn law_pixel_summary(st: LightState)
    requires
        st.mode == Mode::Pixel,
    ensures
        has_part(st.summary_text(), "PIXEL fx#"@ + dec(st.pixel_effect as nat) + " "@),
        has_part(st.summary_text(), " "@ + dec(st.seg_count as nat) + " seg speed="@),
        has_part(st.summary_text(), " seg speed="@ + dec(st.pixel_speed as nat) + " @ "@),
        has_part(st.summary_text(), " @ "@ + dec(st.brightness as nat) + "%"@),
{
    let p = seq![
        "PIXEL fx#"@,
        dec(st.pixel_effect as nat),
        " "@,
        dec(st.seg_count as nat),
        " seg speed="@,
        dec(st.pixel_speed as nat),
        " @ "@,
        dec(st.brightness as nat),
        "%"@,
    ];
    reveal_with_fuel(chained, 10);
    assert(st.summary_text() =~= chained(p, 9));
    law_pieces_are_parts(p, 9, 0);
    law_pieces_are_parts(p, 9, 2);
    law_pieces_are_parts(p, 9, 4);
    law_pieces_are_parts(p, 9, 6);
}

/// The log line of a reply says what it holds.
pub proof fn law_reply_summaries(major: u8, minor: u8, patch: u8, v: u8, celsius: i16)
    ensures
        ({
            let s = (Reply::Version { major, minor, patch, by_mac: false }).summary_text();
            &&& has_part(s, "firmware "@ + dec(major as nat) + "."@)
            &&& has_part(s, "."@ + dec(minor as nat) + "."@)
            &&& has_part(s, "."@ + dec(patch as nat) + ""@)
        }),
        (Reply::Battery { percent: v }).summary_text() == "battery "@ + dec(v as nat) + "%"@,
        has_part((Reply::State { mode: v, on: true }).summary_text(), " power="@ + "on"@ + ""@),
        has_part((Reply::State { mode: v, on: false }).summary_text(), " power="@ + "off"@ + ""@),
        (Reply::Power { on: true }).summary_text() == "power "@ + "on"@,
        (Reply::Power { on: false }).summary_text() == "power "@ + "off"@,
        (Reply::Temperature { celsius }).summary_text() == "temperature "@ + int_dec(celsius as int)
            + "°C"@,
{
    let p = seq![
        "firmware "@,
        dec(major as nat),
        "."@,
        dec(minor as nat),
        "."@,
        dec(patch as nat),
        ""@,
    ];
    reveal_with_fuel(chained, 8);
    assert((Reply::Version { major, minor, patch, by_mac: false }).summary_text() =~= chained(p, 7));
    law_pieces_are_parts(p, 7, 0);
    law_pieces_are_parts(p, 7, 2);
    law_pieces_are_parts(p, 7, 4);
    reveal_strlit("");
    let on = seq!["state mode="@, dec(v as nat), " power="@, "on"@, ""@];
    let off = seq!["state mode="@, dec(v as nat), " power="@, "off"@, ""@];
    assert((Reply::State { mode: v, on: true }).summary_text() =~= chained(on, 5));
    assert((Reply::State { mode: v, on: false }).summary_text() =~= chained(off, 5));
    law_pieces_are_parts(on, 5, 2);
    law_pieces_are_parts(off, 5, 2);
}

/// A flag for external power is reported in hexadecimal, and a version that came by MAC as
/// such.
pub proof fn law_more_reply_summaries(raw: u8, major: u8, minor: u8, patch: u8)
    ensures
        (Reply::ExternalPower { raw }).summary_text() == "external/mains power (flag 0x"@ + hex2(
            raw,
            false,
        ) + ")"@,
        (Reply::Version { major, minor, patch, by_mac: true }).summary_text() == (Reply::Version {
            major,
            minor,
            patch,
            by_mac: false,
        }).summary_text() + " (by-MAC)"@,
{
    reveal_strlit("");
    let plain = (Reply::Version { major, minor, patch, by_mac: false }).summary_text();
    let start = "firmware "@ + dec(major as nat) + "."@ + dec(minor as nat) + "."@ + dec(
        patch as nat,
    );
    assert(plain =~= start);
}

/// A body with a head, a tag, the length of its payload and the payload is, once sealed, a
/// well-formed frame, an empty payload among them; and only a frame whose third byte
/// counts the payload is one.
pub proof fn law_well_formed_frames(head: u8, tag: u8, payload: Seq<u8>, f: Seq<u8>)
    requires
        payload.len() <= 255,
    ensures
        well_framed(sealed(seq![head, tag, payload.len() as u8] + payload)),
        well_framed(f) ==> f.len() >= 4 && f[2] + 4 == f.len() && f[f.len() - 1] == ck(
            f.drop_last(),
        ),
{
    super::lemma_sealed(seq![head, tag, payload.len() as u8] + payload);
}

/// A brightness past 100 is sent as 100; half of it, where fire asks for it, as well.
pub proof fn law_rendering_brightness_is_held(
    mac: Seq<u8>,
    blocks: Seq<Block>,
    bri: u8,
    effect: u8,
    speed: u8,
    dir: u8,
)
    requires
        mac.len() == 6,
        bri > 100,
    ensures
        ({
            let f = paint_frames(mac, blocks, bri, effect, speed, dir)[0];
            &&& effect != 7 ==> f[11] == 100
            &&& effect == 3 || effect == 4 || effect == 5 ==> f[12] == 100
            &&& effect == 7 ==> f[12] == 100 && f[11] <= 100 && f[13] == f[11]
            &&& effect == 7 && bri < 200 ==> bri - 1 <= 2 * f[11] <= bri
            &&& effect == 7 && bri >= 200 ==> f[11] == 100
        }),
{
}

/// The state that every other starts from: off, half-bright white of 3200 K, everything
/// else at rest.
pub proof fn law_the_state_at_rest()
    ensures
        ({
            let st = default_state();
            &&& !st.power && !st.seed && st.mode == Mode::Cct
            &&& st.brightness == 50 && st.cct == 32 && st.gm == 0
            &&& st.hue == 0 && st.sat == 0 && st.x == 0 && st.y == 0
            &&& st.r == 0 && st.g == 0 && st.b == 0 && st.cw == 0 && st.ww == 0
            &&& st.fx_id == 1 && st.fx_speed == 5 && st.fx_extra == 0 && st.fx_val2 == 0
            &&& st.seg_count == 0 && st.pixel_speed == 0 && st.pixel_effect == 1 && st.pixel_dir
                == 1
            &&& forall|i: int| 0 <= i < 8 ==> #[trigger] st.segments[i] == Block::Off
        }),
{
}

/// A list of frames is taken frame by frame, in order.
pub proof fn law_frames_in_order(frames: Seq<Vec<u8>>, i: int)
    requires
        0 <= i < frames.len(),
    ensures
        frames_of(frames).len() == frames.len(),
        frames_of(frames)[i] == frames[i]@,
{
}

} // verus!
