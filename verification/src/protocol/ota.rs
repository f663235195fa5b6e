//! The `0x78` firmware-update block protocol.
//!
//! It rides the normal control service:
//!
//! 1. **Probe** `0xD0` (`78 D0 00 48`). The light answers `0x1A`; byte 3 equal to
//!    1 means 4096-byte blocks (`0xCF`), anything else 128-byte blocks (`0x97`).
//! 2. **Header** `0x96`: version, image size, check code and a name.
//! 3. **Blocks**: `78 97 <len> <data>` or `78 CF <(len+1) LE16> <data>`.
//! 4. **Flow control**: the light drives the transfer with `0x06` acknowledgements.
//!
//! The check code is the additive 32-bit sum of every image byte.

use vstd::prelude::*;
use vstd::string::*;
use super::{byte_sum, checksummed, hi, lo, min_of, sealed, well_framed, with_checksum};

verus! {

/// The light's block size, learned from the probe reply.
#[derive(Debug, Clone, Copy, PartialEq, Eq, Structural)]
pub enum BlockKind {
    /// 128-byte blocks via `0x97`.
    Std128,
    /// 4096-byte blocks via `0xCF`.
    Pro4096,
}

impl BlockKind {
    /// Payload bytes per firmware block.
    pub open spec fn size(self) -> int {
        match self {
            BlockKind::Std128 => 128,
            BlockKind::Pro4096 => 4096,
        }
    }

    /// Payload bytes per firmware block.
    pub fn block_size(self) -> (r: usize)
        ensures
            r == self.size(),
    {
        match self {
            BlockKind::Std128 => 128,
            BlockKind::Pro4096 => 4096,
        }
    }
}

/// The frame-header byte of ordinary lights.
pub const HEADER_STD: u8 = 0x78;

/// The frame-header byte of the one device class that wants another.
pub const HEADER_CLASSIFY6: u8 = 0x85;

/// The check code of an image: the plain sum of its bytes, modulo 2^32.
pub open spec fn code_of(image: Seq<u8>) -> u32 {
    (byte_sum(image) % 0x1_0000_0000) as u32
}

/// The additive 32-bit check code the `0x96` header advertises.
pub fn check_code(image: &[u8]) -> (r: u32)
    ensures
        r == code_of(image@),
{
    let mut acc: u32 = 0;
    let mut i: usize = 0;
    while i < image.len()
        invariant
            i <= image.len(),
            acc == byte_sum(image@.take(i as int)) % 0x1_0000_0000,
        decreases image.len() - i,
    {
        assert(image@.take(i + 1).drop_last() =~= image@.take(i as int));
        acc = acc.wrapping_add(image[i] as u32);
        i += 1;
    }
    assert(image@.take(image@.len() as int) =~= image@);
    acc
}

/// The block-size probe frame, `78 D0 00 48` with the ordinary header byte.
pub fn probe_frame(header_byte: u8) -> (f: Vec<u8>)
    ensures
        f@ == sealed(seq![header_byte, 0xD0u8, 0x00]),
        well_framed(f@),
{
    with_checksum(vec![header_byte, 0xD0, 0x00])
}

/// The block kind a probe reply names: exactly 5 bytes, opcode `0x1A`, byte 3 equal
/// to 1 for the large blocks.
pub open spec fn kind_named(reply: Seq<u8>) -> Option<BlockKind> {
    if reply.len() == 5 && reply[1] == 0x1A {
        Some(
            if reply[3] == 1 {
                BlockKind::Pro4096
            } else {
                BlockKind::Std128
            },
        )
    } else {
        None
    }
}

/// Parse a `0x1A` probe reply into the block kind. Anything else is `None`.
pub fn parse_type_reply(reply: &[u8]) -> (r: Option<BlockKind>)
    ensures
        r == kind_named(reply@),
{
    if reply.len() == 5 && reply[1] == 0x1A {
        Some(
            if reply[3] == 1 {
                BlockKind::Pro4096
            } else {
                BlockKind::Std128
            },
        )
    } else {
        None
    }
}

/// The four bytes of a 32-bit value, most significant first.
pub open spec fn be32(v: u32) -> Seq<u8> {
    seq![
        (v / 0x100_0000) as u8,
        (v / 0x1_0000 % 256) as u8,
        (v / 0x100 % 256) as u8,
        (v % 256) as u8,
    ]
}

fn push_be32(f: &mut Vec<u8>, v: u32)
    ensures
        final(f)@ == old(f)@ + be32(v),
{
    f.push((v / 0x100_0000) as u8);
    f.push((v / 0x1_0000 % 256) as u8);
    f.push((v / 0x100 % 256) as u8);
    f.push((v % 256) as u8);
    assert(f@ =~= old(f)@ + be32(v));
}

/// The four big-endian bytes read back as the value.
pub proof fn law_be32_reads_back(v: u32)
    ensures
        be32(v)[0] * 0x100_0000 + be32(v)[1] * 0x1_0000 + be32(v)[2] * 0x100 + be32(v)[3] == v,
{
}

/// The `0x96` update-info header. The light validates the block stream against
/// `size` and `check_code`.
#[derive(Debug, Clone)]
pub struct Header {
    /// Firmware version being flashed, e.g. `[3, 0, 5]`.
    pub version: [u8; 3],
    /// Image length in bytes.
    pub size: u32,
    /// Additive check code of the image.
    pub check_code: u32,
    /// Model name; the light does not validate it.
    pub name: String,
    /// Frame-header byte, see [`HEADER_STD`].
    pub header_byte: u8,
}

impl Header {
    /// Build the header for `image` at `version`, computing size and check code.
    pub fn for_image(image: &[u8], version: [u8; 3], name: &str) -> (r: Self)
        ensures
            r.version == version,
            r.size == image@.len() % 0x1_0000_0000,
            r.check_code == code_of(image@),
            r.name@ == name@,
            r.header_byte == HEADER_STD,
    {
        Header {
            version,
            size: (image.len() as u64 % 0x1_0000_0000) as u32,
            check_code: check_code(image),
            name: name.to_owned(),
            header_byte: HEADER_STD,
        }
    }

    /// The bytes of the frame before its checksum.
    pub open spec fn body(&self) -> Seq<u8> {
        let name = vstd::utf8::encode_utf8(self.name@);
        seq![self.header_byte, 0x96u8, ((11 + name.len()) % 256) as u8] + self.version@ + be32(
            self.size,
        ) + be32(self.check_code) + name
    }

    /// Encode the `0x96` frame. The length byte counts version, size, check code
    /// and name, modulo 256.
    pub fn frame(&self) -> (f: Vec<u8>)
        ensures
            f@ == sealed(self.body()),
            checksummed(f@),
            vstd::utf8::encode_utf8(self.name@).len() <= 244 ==> well_framed(f@),
    {
        let name: &[u8] = self.name.as_str().as_bytes();
        let mut f: Vec<u8> = Vec::new();
        f.push(self.header_byte);
        f.push(0x96);
        f.push(((11 + name.len() % 256) % 256) as u8);
        f.extend_from_slice(self.version.as_slice());
        push_be32(&mut f, self.size);
        push_be32(&mut f, self.check_code);
        f.extend_from_slice(name);
        assert((11 + name@.len() % 256) % 256 == (11 + name@.len()) % 256);
        assert(f@ =~= self.body());
        with_checksum(f)
    }
}

/// The bytes of a block frame before its checksum.
pub open spec fn block_body(kind: BlockKind, data: Seq<u8>, header_byte: u8) -> Seq<u8> {
    match kind {
        BlockKind::Std128 => seq![header_byte, 0x97u8, lo(data.len() as int)] + data,
        BlockKind::Pro4096 => seq![
            header_byte,
            0xCFu8,
            lo(data.len() as int + 1),
            hi(data.len() as int + 1),
        ] + data,
    }
}

proof fn lemma_count_bytes(len: int)
    requires
        0 <= len,
    ensures
        lo(len + 1) == (len % 0x1_0000 + 1) % 0x1_0000 % 256,
        hi(len + 1) == (len % 0x1_0000 + 1) % 0x1_0000 / 256,
{
}

fn small_block(data: &[u8], header_byte: u8) -> (f: Vec<u8>)
    ensures
        f@ == sealed(block_body(BlockKind::Std128, data@, header_byte)),
        checksummed(f@),
        data@.len() <= 128 ==> well_framed(f@),
{
    let mut f: Vec<u8> = Vec::new();
    f.push(header_byte);
    f.push(0x97);
    f.push((data.len() % 256) as u8);
    f.extend_from_slice(data);
    assert(f@ =~= block_body(BlockKind::Std128, data@, header_byte));
    with_checksum(f)
}

fn large_block(data: &[u8], header_byte: u8) -> (f: Vec<u8>)
    ensures
        f@ == sealed(block_body(BlockKind::Pro4096, data@, header_byte)),
        checksummed(f@),
        data@.len() <= 4096 ==> f@[2] + f@[3] * 256 == data@.len() + 1,
{
    let len_plus_1: u16 = ((data.len() % 0x1_0000 + 1) % 0x1_0000) as u16;
    let low: u8 = (len_plus_1 % 256) as u8;
    let high: u8 = (len_plus_1 / 256) as u8;
    proof {
        lemma_count_bytes(data@.len() as int);
    }
    let mut f: Vec<u8> = Vec::new();
    f.push(header_byte);
    f.push(0xCF);
    f.push(low);
    f.push(high);
    f.extend_from_slice(data);
    assert(f@ =~= block_body(BlockKind::Pro4096, data@, header_byte));
    with_checksum(f)
}

/// Encode one firmware block frame. The small form counts the data bytes; the
/// large form carries `data.len() + 1`, little-endian.
pub fn block_frame(kind: BlockKind, data: &[u8], header_byte: u8) -> (f: Vec<u8>)
    ensures
        f@ == sealed(block_body(kind, data@, header_byte)),
        checksummed(f@),
        kind == BlockKind::Std128 && data@.len() <= kind.size() ==> well_framed(f@),
        kind == BlockKind::Pro4096 && data@.len() <= kind.size() ==> f@[2] + f@[3] * 256
            == data@.len() + 1,
{
    match kind {
        BlockKind::Std128 => small_block(data, header_byte),
        BlockKind::Pro4096 => large_block(data, header_byte),
    }
}

/// A `0x06` flow-control acknowledgement.
#[derive(Debug, Clone, Copy, PartialEq, Eq, Structural)]
pub enum Ack {
    /// Block accepted; send the next one.
    Next,
    /// Resend the current block.
    Resend,
    /// Restart the transfer from block 0.
    Restart,
    /// Transfer complete, image committed.
    Done,
    /// Transfer failed.
    Fail,
    /// Any other operation byte.
    Unknown(u8),
}

/// The acknowledgement an operation byte stands for.
pub open spec fn ack_of(op: u8) -> Ack {
    if op == 0 {
        Ack::Next
    } else if op == 1 {
        Ack::Resend
    } else if op == 2 {
        Ack::Restart
    } else if op == 3 {
        Ack::Done
    } else if op == 4 {
        Ack::Fail
    } else {
        Ack::Unknown(op)
    }
}

/// The acknowledgement a notification carries: opcode `0x06`, and either 5 bytes
/// long or longer with length byte 1. The operation is byte 3.
pub open spec fn ack_in(frame: Seq<u8>) -> Option<Ack> {
    if frame.len() >= 5 && frame[1] == 0x06 && (frame.len() == 5 || frame[2] == 0x01) {
        Some(ack_of(frame[3]))
    } else {
        None
    }
}

/// Parse a notification as an acknowledgement.
pub fn parse_ack(frame: &[u8]) -> (r: Option<Ack>)
    ensures
        r == ack_in(frame@),
{
    let is_ack = frame.len() >= 5 && frame[1] == 0x06 && (frame.len() == 5 || frame[2] == 0x01);
    if !is_ack {
        return None;
    }
    let op: u8 = frame[3];
    Some(
        match op {
            0 => Ack::Next,
            1 => Ack::Resend,
            2 => Ack::Restart,
            3 => Ack::Done,
            4 => Ack::Fail,
            other => Ack::Unknown(other),
        },
    )
}

/// The bytes of block `index`: the image from `index` times the block size on,
/// at most one block size long.
pub open spec fn block_bytes(image: Seq<u8>, kind: BlockKind, index: int) -> Seq<u8> {
    image.subrange(index * kind.size(), min_of(index * kind.size() + kind.size(), image.len() as int))
}

/// The number of blocks an image of `len` bytes has.
pub open spec fn blocks(len: int, kind: BlockKind) -> int {
    match kind {
        BlockKind::Std128 => (len + 127) / 128,
        BlockKind::Pro4096 => (len + 4095) / 4096,
    }
}

/// The block at `index` (the last one is the short remainder); `None` once
/// `index` is past the end.
pub fn block_at(image: &[u8], kind: BlockKind, index: usize) -> (r: Option<&[u8]>)
    ensures
        r is Some <==> index < blocks(image@.len() as int, kind),
        r matches Some(b) ==> b@ == block_bytes(image@, kind, index as int) && 0 < b@.len()
            <= kind.size(),
{
    let bs: usize = kind.block_size();
    let len: usize = image.len();
    proof {
        lemma_block_in_range(image@.len() as int, kind, index as int);
        lemma_scale(kind, index as int);
    }
    let start: usize = match index.checked_mul(bs) {
        Some(s) => s,
        None => return None,
    };
    if start >= len {
        return None;
    }
    let end: usize = if len - start <= bs {
        len
    } else {
        start + bs
    };
    Some(vstd::slice::slice_subrange(image, start, end))
}

/// Total number of blocks of an image (ceiling division).
pub fn block_count(image_len: usize, kind: BlockKind) -> (r: usize)
    ensures
        r == blocks(image_len as int, kind),
{
    let bs: usize = kind.block_size();
    let whole: usize = image_len / bs;
    if image_len % bs == 0 {
        whole
    } else {
        whole + 1
    }
}

/// A block index is in range exactly when its start lies inside the image.
proof fn lemma_block_in_range(len: int, kind: BlockKind, index: int)
    requires
        len >= 0,
        index >= 0,
    ensures
        index < blocks(len, kind) <==> index * kind.size() < len,
{
    lemma_scale(kind, index);
}

proof fn lemma_scale(kind: BlockKind, n: int)
    ensures
        kind == BlockKind::Std128 ==> n * kind.size() == n * 128,
        kind == BlockKind::Pro4096 ==> n * kind.size() == n * 4096,
{
    let size = kind.size();
    if kind == BlockKind::Std128 {
        assert(n * size == n * 128) by (nonlinear_arith)
            requires
                size == 128,
        ;
    } else {
        assert(n * size == n * 4096) by (nonlinear_arith)
            requires
                size == 4096,
        ;
    }
}

/// The first `n` blocks of an image, one behind the other.
pub open spec fn joined(image: Seq<u8>, kind: BlockKind, n: nat) -> Seq<u8>
    decreases n,
{
    if n == 0 {
        seq![]
    } else {
        joined(image, kind, (n - 1) as nat) + block_bytes(image, kind, n - 1)
    }
}

/// The blocks partition the image: all of them, in order, give it back, and
/// each but the last is full.
pub proof fn law_blocks_rebuild_the_image(image: Seq<u8>, kind: BlockKind)
    ensures
        joined(image, kind, blocks(image.len() as int, kind) as nat) == image,
        forall|i: int|
            0 <= i < blocks(image.len() as int, kind) - 1 ==> (#[trigger] block_bytes(
                image,
                kind,
                i,
            )).len() == kind.size(),
{
    let n = blocks(image.len() as int, kind);
    lemma_joined_is_prefix(image, kind, n as nat);
    lemma_scale(kind, n);
    assert(min_of(n * kind.size(), image.len() as int) == image.len());
    assert(image.take(image.len() as int) =~= image);
    assert forall|i: int| 0 <= i < n - 1 implies (#[trigger] block_bytes(image, kind, i)).len()
        == kind.size() by {
        lemma_scale(kind, i);
    }
}

proof fn lemma_joined_is_prefix(image: Seq<u8>, kind: BlockKind, n: nat)
    requires
        n <= blocks(image.len() as int, kind),
    ensures
        joined(image, kind, n) == image.take(min_of(n * kind.size(), image.len() as int)),
    decreases n,
{
    if n == 0 {
        assert(image.take(0) =~= seq![]);
    } else {
        lemma_joined_is_prefix(image, kind, (n - 1) as nat);
        lemma_block_in_range(image.len() as int, kind, n - 1);
        assert(n * kind.size() == (n - 1) * kind.size() + kind.size()) by (nonlinear_arith);
        assert(joined(image, kind, n) =~= image.take(
            min_of(n * kind.size(), image.len() as int),
        ));
    }
}

/// The sum of the check codes of the first `n` blocks of an image.
pub open spec fn codes(image: Seq<u8>, kind: BlockKind, n: nat) -> int
    decreases n,
{
    if n == 0 {
        0
    } else {
        codes(image, kind, (n - 1) as nat) + code_of(block_bytes(image, kind, n - 1))
    }
}

proof fn lemma_code_concat(a: Seq<u8>, b: Seq<u8>)
    ensures
        code_of(a + b) == (code_of(a) + code_of(b)) % 0x1_0000_0000,
{
    super::lemma_sum_concat(a, b);
}

proof fn lemma_codes_so_far(image: Seq<u8>, kind: BlockKind, n: nat)
    ensures
        code_of(joined(image, kind, n)) == codes(image, kind, n) % 0x1_0000_0000,
        codes(image, kind, n) >= 0,
    decreases n,
{
    if n > 0 {
        lemma_codes_so_far(image, kind, (n - 1) as nat);
        lemma_code_concat(
            joined(image, kind, (n - 1) as nat),
            block_bytes(image, kind, n - 1),
        );
    }
}

/// The check code of the image is the sum of the check codes of its blocks, modulo
/// 2^32.
pub proof fn law_check_code_adds_up(image: Seq<u8>, kind: BlockKind)
    ensures
        code_of(image) == codes(image, kind, blocks(image.len() as int, kind) as nat)
            % 0x1_0000_0000,
{
    law_blocks_rebuild_the_image(image, kind);
    lemma_codes_so_far(image, kind, blocks(image.len() as int, kind) as nat);
}

/// An image that has lost a stretch whose own check code is not 0 has another check
/// code.
pub proof fn law_lost_bytes_are_noticed(before: Seq<u8>, lost: Seq<u8>, after: Seq<u8>)
    requires
        code_of(lost) != 0,
    ensures
        code_of(before + lost + after) != code_of(before + after),
{
    lemma_code_concat(before, lost);
    lemma_code_concat(before + lost, after);
    lemma_code_concat(before, after);
}

/// The check code of nothing is 0, and each byte adds itself, round 2^32.
pub proof fn law_check_code_counts_each_byte(image: Seq<u8>, b: u8)
    ensures
        code_of(Seq::empty()) == 0,
        code_of(image.push(b)) == code_of(image) + b || code_of(image.push(b)) == code_of(image) + b
            - 0x1_0000_0000,
{
    assert(image.push(b).drop_last() =~= image);
    let s = byte_sum(image) as int;
    assert((s + b) % 0x1_0000_0000 == (s % 0x1_0000_0000 + b) % 0x1_0000_0000);
}

/// A probe reply is five bytes with opcode `1A`; its byte 3 is 1 for large blocks and
/// anything else for small ones.
pub proof fn law_probe_replies(reply: Seq<u8>)
    ensures
        kind_named(reply) is Some <==> reply.len() == 5 && reply[1] == 0x1A,
        kind_named(reply) == Some(BlockKind::Pro4096) <==> reply.len() == 5 && reply[1] == 0x1A
            && reply[3] == 1,
{
}

/// The header frame, byte by byte: version, size and check code, most significant byte
/// first, and the name.
pub proof fn law_header_layout(h: Header, i: int)
    requires
        ({
            let name = vstd::utf8::encode_utf8(h.name@);
            name.len() <= 244 && 0 <= i < name.len()
        }),
    ensures
        ({
            let f = sealed(h.body());
            let name = vstd::utf8::encode_utf8(h.name@);
            &&& f.len() == 15 + name.len()
            &&& f[0] == h.header_byte && f[1] == 0x96
            &&& f[2] == 11 + name.len()
            &&& f[3] == h.version[0] && f[4] == h.version[1] && f[5] == h.version[2]
            &&& f[6] * 0x100_0000 + f[7] * 0x1_0000 + f[8] * 0x100 + f[9] == h.size
            &&& f[10] * 0x100_0000 + f[11] * 0x1_0000 + f[12] * 0x100 + f[13] == h.check_code
            &&& f[14 + i] == name[i]
        }),
{
    law_be32_reads_back(h.size);
    law_be32_reads_back(h.check_code);
    let f = sealed(h.body());
    assert(f[6] == be32(h.size)[0] && f[7] == be32(h.size)[1] && f[8] == be32(h.size)[2] && f[9]
        == be32(h.size)[3]);
    assert(f[10] == be32(h.check_code)[0] && f[11] == be32(h.check_code)[1] && f[12] == be32(
        h.check_code,
    )[2] && f[13] == be32(h.check_code)[3]);
}

/// A block frame, byte by byte: the small form counts its data in one byte, the large
/// form counts one more in two, low byte first; the data follows.
pub proof fn law_block_layout(data: Seq<u8>, header_byte: u8, i: int)
    requires
        0 <= i < data.len(),
    ensures
        data.len() <= 128 ==> {
            let f = sealed(block_body(BlockKind::Std128, data, header_byte));
            &&& f.len() == data.len() + 4
            &&& f[0] == header_byte && f[1] == 0x97
            &&& f[2] == data.len()
            &&& f[3 + i] == data[i]
        },
        data.len() <= 4096 ==> {
            let f = sealed(block_body(BlockKind::Pro4096, data, header_byte));
            &&& f.len() == data.len() + 5
            &&& f[0] == header_byte && f[1] == 0xCF
            &&& f[2] + 256 * f[3] == data.len() + 1
            &&& f[4 + i] == data[i]
        },
{
}

/// An acknowledgement has opcode `06` and its operation at byte 3: 0 next, 1 resend, 2
/// restart, 3 done, 4 fail, anything else unknown. One longer than five bytes says so
/// with a length of 1.
pub proof fn law_acknowledgements(frame: Seq<u8>)
    ensures
        ack_in(frame) is Some <==> frame.len() >= 5 && frame[1] == 0x06 && (frame.len() == 5
            || frame[2] == 1),
        ack_in(frame) matches Some(ack) ==> {
            &&& ack == Ack::Next <==> frame[3] == 0
            &&& ack == Ack::Resend <==> frame[3] == 1
            &&& ack == Ack::Restart <==> frame[3] == 2
            &&& ack == Ack::Done <==> frame[3] == 3
            &&& ack == Ack::Fail <==> frame[3] == 4
            &&& ack is Unknown ==> ack == Ack::Unknown(frame[3])
        },
{
}

/// Byte `j` of block `i` is byte `i * size + j` of the image, with 128 or 4096 bytes to
/// the block; the blocks end where the image does.
pub proof fn law_blocks_are_stretches(image: Seq<u8>, i: int, j: int)
    requires
        0 <= i,
        0 <= j,
    ensures
        j < 128 && i * 128 + j < image.len() ==> {
            &&& i < blocks(image.len() as int, BlockKind::Std128)
            &&& j < block_bytes(image, BlockKind::Std128, i).len() <= 128
            &&& block_bytes(image, BlockKind::Std128, i)[j] == image[i * 128 + j]
        },
        j < 4096 && i * 4096 + j < image.len() ==> {
            &&& i < blocks(image.len() as int, BlockKind::Pro4096)
            &&& j < block_bytes(image, BlockKind::Pro4096, i).len() <= 4096
            &&& block_bytes(image, BlockKind::Pro4096, i)[j] == image[i * 4096 + j]
        },
        i * 128 >= image.len() ==> i >= blocks(image.len() as int, BlockKind::Std128),
        i * 4096 >= image.len() ==> i >= blocks(image.len() as int, BlockKind::Pro4096),
{
    lemma_scale(BlockKind::Std128, i);
    lemma_scale(BlockKind::Pro4096, i);
}

/// The length byte of a header counts version, size, check code and name, round 256.
pub proof fn law_header_length(h: Header)
    ensures
        (h.body()[2] - (11 + vstd::utf8::encode_utf8(h.name@).len())) % 256 == 0,
{
    let n = 11 + vstd::utf8::encode_utf8(h.name@).len();
    assert(h.body()[2] == n % 256);
    assert((n % 256 - n) % 256 == 0);
}

} // verus!
