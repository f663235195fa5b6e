//! ArtNet packets. Only ArtDmx (opcode `0x5000`) matters; everything else is
//! ignored.
//!
//! The port-address is the 15-bit `Net(7) | Sub-Net(4) | Universe(4)` value that
//! a light's config binds to; the wire splits it across the `Net` byte and the
//! `SubUni` byte.

use vstd::prelude::*;
use vstd::string::*;
use crate::clock::{elapsed, since, Nanos};
use crate::protocol::{hi, lo, min_of};
use crate::table::{Key, Table};
use crate::text::{dec, padded, push_dec};

verus! {

broadcast use vstd::string::group_string_axioms;

/// Standard ArtNet UDP port.
pub const ARTNET_PORT: u16 = 6454;

/// Channels in a DMX universe.
pub const DMX_UNIVERSE_SIZE: u16 = 512;

/// The largest 15-bit port-address.
pub const MAX_PORT_ADDRESS: u16 = 32767;

/// Bytes before the channel data.
const HEADER: usize = 18;

/// The packet id, `Art-Net` and a zero byte.
pub open spec fn artnet_id() -> Seq<u8> {
    seq![0x41u8, 0x72, 0x74, 0x2D, 0x4E, 0x65, 0x74, 0x00]
}

/// A decoded ArtDmx packet (only the fields the bridge uses).
#[derive(Debug, Clone, PartialEq, Eq)]
pub struct ArtDmx {
    /// Packet sequence, 0 where the sender does not number its packets.
    pub sequence: u8,
    /// Source physical port (informational).
    pub physical: u8,
    /// 15-bit port-address.
    pub port_address: u16,
    /// DMX channel data, 1..=512 bytes.
    pub data: Vec<u8>,
}

/// The data length a packet declares.
pub open spec fn declared_len(buf: Seq<u8>) -> int {
    buf[16] * 256 + buf[17]
}

/// A well-formed ArtDmx packet: id, opcode, a length of 1..=512 and at least
/// that much data.
pub open spec fn is_artdmx(buf: Seq<u8>) -> bool {
    &&& buf.len() >= 18
    &&& buf.take(8) == artnet_id()
    &&& buf[8] == 0x00 && buf[9] == 0x50
    &&& 1 <= declared_len(buf) <= 512
    &&& buf.len() >= 18 + declared_len(buf)
}

/// The port-address of a packet; the top bit of the `Net` byte does not count.
pub open spec fn packet_port(buf: Seq<u8>) -> u16 {
    (buf[15] % 128 * 256 + buf[14]) as u16
}

/// The channel data of a packet.
pub open spec fn packet_data(buf: Seq<u8>) -> Seq<u8> {
    buf.subrange(18, 18 + declared_len(buf))
}

fn has_id(buf: &[u8]) -> (r: bool)
    requires
        buf@.len() >= 18,
    ensures
        r == (buf@.take(8) == artnet_id()),
{
    let r = buf[0] == 0x41 && buf[1] == 0x72 && buf[2] == 0x74 && buf[3] == 0x2D && buf[4] == 0x4E
        && buf[5] == 0x65 && buf[6] == 0x74 && buf[7] == 0x00;
    proof {
        if r {
            assert(buf@.take(8) =~= artnet_id());
        } else if buf@.take(8) == artnet_id() {
            assert(buf@[0] == buf@.take(8)[0]);
            assert(buf@[1] == buf@.take(8)[1]);
            assert(buf@[2] == buf@.take(8)[2]);
            assert(buf@[3] == buf@.take(8)[3]);
            assert(buf@[4] == buf@.take(8)[4]);
            assert(buf@[5] == buf@.take(8)[5]);
            assert(buf@[6] == buf@.take(8)[6]);
            assert(buf@[7] == buf@.take(8)[7]);
        }
    }
    r
}

/// Parse a UDP datagram as ArtDmx. `None` for anything that is not a well-formed
/// ArtDmx packet (wrong id, wrong opcode, truncated, bad length).
pub fn parse_artdmx(buf: &[u8]) -> (r: Option<ArtDmx>)
    ensures
        r is Some <==> is_artdmx(buf@),
        r matches Some(p) ==> {
            &&& p.sequence == buf@[12]
            &&& p.physical == buf@[13]
            &&& p.port_address == packet_port(buf@)
            &&& p.data@ == packet_data(buf@)
        },
{
    if buf.len() < HEADER {
        return None;
    }
    if !has_id(buf) {
        return None;
    }
    // The opcode is transmitted low byte first.
    if buf[8] != 0x00 || buf[9] != 0x50 {
        return None;
    }
    let sequence: u8 = buf[12];
    let physical: u8 = buf[13];
    let sub_uni: u8 = buf[14];
    let net: u8 = buf[15];
    // The length is big-endian.
    let length: usize = buf[16] as usize * 256 + buf[17] as usize;
    if length == 0 || length > 512 {
        return None;
    }
    if buf.len() < HEADER + length {
        return None;
    }
    let data: Vec<u8> = vstd::slice::slice_to_vec(
        vstd::slice::slice_subrange(buf, HEADER, HEADER + length),
    );
    let port_address: u16 = (net % 128) as u16 * 256 + sub_uni as u16;
    Some(ArtDmx { sequence, physical, port_address, data })
}

/// The ArtDmx datagram of a port-address, a sequence number and at most 512
/// bytes of data.
pub open spec fn artdmx_bytes(port_address: u16, sequence: u8, data: Seq<u8>) -> Seq<u8> {
    let len = min_of(data.len() as int, 512);
    artnet_id() + seq![
        0x00u8,
        0x50,
        0x00,
        14,
        sequence,
        0,
        lo(port_address as int),
        (port_address / 256 % 128) as u8,
        hi(len),
        lo(len),
    ] + data.take(len)
}

/// Encode an ArtDmx datagram for a port-address. `data` is cut at 512 bytes.
pub fn encode_artdmx(port_address: u16, sequence: u8, data: &[u8]) -> (p: Vec<u8>)
    ensures
        p@ == artdmx_bytes(port_address, sequence, data@),
{
    let len: usize = if data.len() < 512 {
        data.len()
    } else {
        512
    };
    let mut p: Vec<u8> = vec![0x41, 0x72, 0x74, 0x2D, 0x4E, 0x65, 0x74, 0x00];
    p.push(0x00);
    p.push(0x50);
    p.push(0x00);
    p.push(14);
    p.push(sequence);
    p.push(0);
    p.push((port_address % 256) as u8);
    p.push((port_address / 256 % 128) as u8);
    p.push((len / 256) as u8);
    p.push((len % 256) as u8);
    let body: &[u8] = vstd::slice::slice_subrange(data, 0, len);
    p.extend_from_slice(body);
    assert(p@ =~= artdmx_bytes(port_address, sequence, data@));
    p
}

/// What is encoded is parsed back: for one to 512 bytes of data the datagram is
/// well-formed and carries the sequence number, the port-address (15 bits of it)
/// and the data.
pub proof fn law_encode_parse_round_trip(port_address: u16, sequence: u8, data: Seq<u8>)
    requires
        1 <= data.len(),
    ensures
        ({
            let buf = artdmx_bytes(port_address, sequence, data);
            &&& is_artdmx(buf)
            &&& buf[12] == sequence
            &&& buf[13] == 0
            &&& packet_port(buf) == port_address % 0x8000
            &&& packet_data(buf) == data.take(min_of(data.len() as int, 512))
            &&& data.len() <= 512 ==> packet_data(buf) == data
        }),
{
    let buf = artdmx_bytes(port_address, sequence, data);
    let len = min_of(data.len() as int, 512);
    assert(buf.take(8) =~= artnet_id());
    assert(declared_len(buf) == len);
    assert(packet_data(buf) =~= data.take(len));
    if data.len() <= 512 {
        assert(data.take(len) =~= data);
    }
}

/// Decompose a 15-bit port-address into (Net, Sub-Net, Universe).
pub fn split_port_address(port_address: u16) -> (r: (u8, u8, u8))
    ensures
        r.0 == port_address / 256 % 128,
        r.1 == port_address / 16 % 16,
        r.2 == port_address % 16,
        r.0 * 256 + r.1 * 16 + r.2 == port_address % 0x8000,
{
    let net: u8 = (port_address / 256 % 128) as u8;
    let sub_net: u8 = (port_address / 16 % 16) as u8;
    let universe: u8 = (port_address % 16) as u8;
    assert(port_address % 0x8000 == (port_address / 256 % 128) * 256 + (port_address / 16 % 16) * 16
        + port_address % 16) by (bit_vector);
    (net, sub_net, universe)
}

/// An IP address by its bits.
#[derive(Debug, Clone, Copy, PartialEq, Eq, Structural)]
pub enum Ip {
    V4(u32),
    V6(u128),
}

/// What a sequence stream belongs to: a source and a port-address.
#[derive(Debug, Clone, Copy, PartialEq, Eq, Structural)]
pub struct Stream {
    pub src: Ip,
    pub port_address: u16,
}

impl Key for Stream {
    fn same(&self, other: &Self) -> (r: bool) {
        *self == *other
    }
}

/// How long a stream may go quiet before its sequence tracking is reset: two
/// seconds.
pub const SEQ_IDLE_RESET: Nanos = 2_000_000_000;

/// Cap on tracked streams.
pub const SEQ_MAX_KEYS: usize = 1024;

/// Out-of-order ArtDmx suppression. The sender counts 1..=255 and skips 0 on the
/// way round (0 means that it does not number its packets); packets behind the
/// newest one seen are dropped. Tracked per source and port-address.
///
/// A packet is fresh when it is not numbered, its stream is new, its stream has
/// been idle past the reset window, or its wrapped distance from the last
/// accepted number is 1..=127.
pub struct SeqTracker {
    idle_reset: Nanos,
    map: Table<Stream, (u8, Nanos)>,
}

/// The wrapped distance from one sequence number to another.
pub open spec fn distance(last: u8, seq: u8) -> int {
    (seq - last) % 256
}

/// The tracked streams that a packet meets: all of them, or none where the cap
/// has been passed.
pub open spec fn kept(m: Map<Stream, (u8, Nanos)>) -> Map<Stream, (u8, Nanos)> {
    if m.dom().len() > 1024 {
        Map::empty()
    } else {
        m
    }
}

/// Whether a packet is fresh.
pub open spec fn fresh(
    m: Map<Stream, (u8, Nanos)>,
    idle_reset: Nanos,
    key: Stream,
    seq: u8,
    now: Nanos,
) -> bool {
    let known = kept(m);
    ||| seq == 0
    ||| !known.contains_key(key)
    ||| elapsed(now, known[key].1) >= idle_reset
    ||| 1 <= distance(known[key].0, seq) <= 127
}

/// The streams after a packet: a fresh numbered packet is recorded.
pub open spec fn noted(
    m: Map<Stream, (u8, Nanos)>,
    idle_reset: Nanos,
    key: Stream,
    seq: u8,
    now: Nanos,
) -> Map<Stream, (u8, Nanos)> {
    if seq == 0 {
        m
    } else if fresh(m, idle_reset, key, seq, now) {
        kept(m).insert(key, (seq, now))
    } else {
        kept(m)
    }
}

impl View for SeqTracker {
    type V = Map<Stream, (u8, Nanos)>;

    closed spec fn view(&self) -> Map<Stream, (u8, Nanos)> {
        self.map@
    }
}

impl SeqTracker {
    /// The table holds no stream twice, and is bounded.
    pub closed spec fn wf(&self) -> bool {
        self.map.wf() && self@.dom().len() <= 1025
    }

    /// The reset window.
    pub closed spec fn window(&self) -> Nanos {
        self.idle_reset
    }

    /// A tracker with the standard reset window.
    pub fn new() -> (t: Self)
        ensures
            t.wf(),
            t.window() == SEQ_IDLE_RESET,
            t.window() == 2_000_000_000,
            t@ == Map::<Stream, (u8, Nanos)>::empty(),
    {
        Self::with_idle_reset(SEQ_IDLE_RESET)
    }

    /// A tracker with another reset window; with a window of 0 every packet
    /// resyncs.
    pub fn with_idle_reset(idle_reset: Nanos) -> (t: Self)
        ensures
            t.wf(),
            t.window() == idle_reset,
            t@ == Map::<Stream, (u8, Nanos)>::empty(),
    {
        SeqTracker { idle_reset, map: Table::new() }
    }

    /// Record `seq` for (`src`, `port_address`) and report whether the packet
    /// should be processed (`true`) or dropped as stale or duplicate (`false`).
    pub fn is_fresh(&mut self, src: Ip, port_address: u16, seq: u8, now: Nanos) -> (r: bool)
        requires
            old(self).wf(),
        ensures
            final(self).wf(),
            final(self)@.dom().len() <= SEQ_MAX_KEYS + 1,
            final(self).window() == old(self).window(),
            r == fresh(old(self)@, old(self).window(), (Stream { src, port_address }), seq, now),
            final(self)@ == noted(
                old(self)@,
                old(self).window(),
                (Stream { src, port_address }),
                seq,
                now,
            ),
    {
        if seq == 0 {
            return true;
        }
        proof {
            self.map.lemma_count();
            law_tracking_is_bounded(
                self@,
                self.window(),
                (Stream { src, port_address }),
                seq,
                now,
            );
        }
        if self.map.len() > SEQ_MAX_KEYS {
            self.map.clear();
        }
        let key = Stream { src, port_address };
        let known: Option<(u8, Nanos)> = match self.map.get(key) {
            Some(e) => Some(*e),
            None => None,
        };
        if let Some((last, seen)) = known {
            if since(now, seen) < self.idle_reset {
                let delta: u8 = seq.wrapping_sub(last);
                let ok = 1 <= delta && delta <= 127;
                if ok {
                    self.map.insert(key, (seq, now));
                }
                return ok;
            }
        }
        self.map.insert(key, (seq, now));
        true
    }
}

impl Default for SeqTracker {
    fn default() -> (t: Self)
        ensures
            t.wf(),
            t.window() == SEQ_IDLE_RESET,
            t.window() == 2_000_000_000,
            t@ == Map::<Stream, (u8, Nanos)>::empty(),
    {
        Self::new()
    }
}

/// On a stream that is not idle, a numbered packet is fresh exactly when it lies
/// 1 to 127 steps ahead of the last accepted number, counted round the wrap: a
/// repeated number and the 128 numbers behind are stale.
pub proof fn law_freshness_window(
    m: Map<Stream, (u8, Nanos)>,
    idle_reset: Nanos,
    key: Stream,
    seq: u8,
    now: Nanos,
    ahead: int,
)
    requires
        m.dom().len() <= 1024,
        m.contains_key(key),
        elapsed(now, m[key].1) < idle_reset,
        0 <= ahead <= 255,
        seq == (m[key].0 + ahead) % 256,
        seq != 0,
    ensures
        fresh(m, idle_reset, key, seq, now) <==> 1 <= ahead <= 127,
{
}

/// A stream that went quiet for the whole window accepts any number again, so a
/// restarted sender is never locked out.
pub proof fn law_idle_stream_resyncs(
    m: Map<Stream, (u8, Nanos)>,
    idle_reset: Nanos,
    key: Stream,
    seq: u8,
    now: Nanos,
)
    requires
        m.contains_key(key),
        elapsed(now, m[key].1) >= idle_reset,
    ensures
        fresh(m, idle_reset, key, seq, now),
{
}

/// However many senders there are, the tracked streams stay bounded: by one more than the
/// cap.
pub proof fn law_tracking_is_bounded(
    m: Map<Stream, (u8, Nanos)>,
    idle_reset: Nanos,
    key: Stream,
    seq: u8,
    now: Nanos,
)
    requires
        m.dom().finite(),
        m.dom().len() <= SEQ_MAX_KEYS + 1,
    ensures
        noted(m, idle_reset, key, seq, now).dom().finite(),
        noted(m, idle_reset, key, seq, now).dom().len() <= SEQ_MAX_KEYS + 1,
{
    assert(kept(m).insert(key, (seq, now)).dom() =~= kept(m).dom().insert(key));
}

/// A packet touches no stream but its own, and a stale packet touches none (the
/// cap on streams aside).
pub proof fn law_streams_are_independent(
    m: Map<Stream, (u8, Nanos)>,
    idle_reset: Nanos,
    key: Stream,
    seq: u8,
    now: Nanos,
    other: Stream,
)
    requires
        m.dom().len() <= 1024,
        other != key || !fresh(m, idle_reset, key, seq, now),
    ensures
        noted(m, idle_reset, key, seq, now).contains_key(other) == m.contains_key(other),
        m.contains_key(other) ==> noted(m, idle_reset, key, seq, now)[other] == m[other],
{
}

/// The cells of a preview: each channel three wide, blanks between.
pub open spec fn cells(data: Seq<u8>) -> Seq<char>
    decreases data.len(),
{
    if data.len() == 0 {
        seq![]
    } else if data.len() == 1 {
        padded(dec(data[0] as nat), 3)
    } else {
        cells(data.drop_last()) + seq![' '] + padded(dec(data.last() as nat), 3)
    }
}

/// The preview of a buffer: its first `n` channels in brackets, with an ellipsis
/// where there are more.
pub open spec fn preview_text(data: Seq<u8>, n: int) -> Seq<char> {
    "["@ + cells(data.take(min_of(data.len() as int, n))) + (if data.len() > n {
        " …"@
    } else {
        ""@
    }) + "]"@
}

fn push_cell(out: &mut String, b: u8)
    ensures
        final(out)@ == old(out)@ + padded(dec(b as nat), 3),
{
    proof {
        reveal_with_fuel(dec, 3);
        reveal_with_fuel(padded, 3);
    }
    if b < 10 {
        out.push(' ');
        out.push(' ');
        assert(padded(dec(b as nat), 3) =~= seq![' '] + (seq![' '] + dec(b as nat)));
    } else if b < 100 {
        out.push(' ');
        assert(padded(dec(b as nat), 3) =~= seq![' '] + dec(b as nat));
    }
    push_dec(out, b as u64);
    assert(out@ =~= old(out)@ + padded(dec(b as nat), 3));
}

/// Format the first `n` channels of a DMX buffer for log lines, e.g.
/// `[100  50 …]`.
pub fn preview(data: &[u8], n: usize) -> (s: String)
    ensures
        s@ == preview_text(data@, n as int),
{
    let m: usize = if data.len() < n {
        data.len()
    } else {
        n
    };
    let mut s = "[".to_string();
    let mut i: usize = 0;
    while i < m
        invariant
            i <= m <= data.len(),
            s@ == "["@ + cells(data@.take(i as int)),
        decreases m - i,
    {
        assert(data@.take(i + 1).drop_last() =~= data@.take(i as int));
        if i > 0 {
            s.push(' ');
        }
        push_cell(&mut s, data[i]);
        i += 1;
        assert(s@ =~= "["@ + cells(data@.take(i as int)));
    }
    s.append(
        if data.len() > n {
            " …"
        } else {
            ""
        },
    );
    s.append("]");
    s
}

/// An ArtDmx datagram, byte by byte: `Art-Net`, a zero, the opcode, a length of 1 to 512
/// and at least that much data; and nothing else is one.
pub proof fn law_artdmx_layout(buf: Seq<u8>)
    ensures
        is_artdmx(buf) <==> {
            &&& buf.len() >= 18
            &&& buf[0] == 0x41 && buf[1] == 0x72 && buf[2] == 0x74 && buf[3] == 0x2D
            &&& buf[4] == 0x4E && buf[5] == 0x65 && buf[6] == 0x74 && buf[7] == 0x00
            &&& buf[8] == 0x00 && buf[9] == 0x50
            &&& 1 <= 256 * buf[16] + buf[17] <= 512
            &&& buf.len() >= 18 + 256 * buf[16] + buf[17]
        },
        is_artdmx(buf) && buf[15] < 128 ==> packet_port(buf) == 256 * buf[15] + buf[14],
        is_artdmx(buf) && buf[15] >= 128 ==> packet_port(buf) == 256 * (buf[15] - 128) + buf[14],
        is_artdmx(buf) ==> packet_data(buf).len() == 256 * buf[16] + buf[17],
        is_artdmx(buf) ==> forall|i: int|
            0 <= i < packet_data(buf).len() ==> packet_data(buf)[i] == #[trigger] buf[18 + i],
{
    if buf.len() >= 18 {
        let id = buf.take(8);
        assert(forall|i: int| 0 <= i < 8 ==> id[i] == buf[i]);
        if buf[0] == 0x41 && buf[1] == 0x72 && buf[2] == 0x74 && buf[3] == 0x2D && buf[4] == 0x4E
            && buf[5] == 0x65 && buf[6] == 0x74 && buf[7] == 0x00 {
            assert(id =~= artnet_id());
        }
        if id == artnet_id() {
            assert(id[0] == 0x41 && id[1] == 0x72 && id[2] == 0x74 && id[3] == 0x2D);
            assert(id[4] == 0x4E && id[5] == 0x65 && id[6] == 0x74 && id[7] == 0x00);
        }
    }
}

/// The header that is written: protocol version 14, the sequence number, the
/// port-address low byte first, and the length high byte first, at most 512.
pub proof fn law_artdmx_header(port_address: u16, sequence: u8, data: Seq<u8>)
    requires
        port_address < 0x8000,
    ensures
        ({
            let p = artdmx_bytes(port_address, sequence, data);
            &&& data.len() <= 512 ==> p.len() == 18 + data.len()
            &&& data.len() > 512 ==> p.len() == 530
            &&& p[10] == 0 && p[11] == 14
            &&& p[12] == sequence
            &&& p[13] == 0
            &&& p[14] + 256 * p[15] == port_address
            &&& 256 * p[16] + p[17] == p.len() - 18
            &&& forall|i: int| 18 <= i < p.len() ==> #[trigger] p[i] == data[i - 18]
        }),
{
}

/// Freshness in numbers and times: a packet passes where it has no number, its stream is
/// new, nothing came of it for the window, or its number lies 1 to 127 ahead of the last
/// one, counted round 256; and only then.
pub proof fn law_fresh_packets(
    m: Map<Stream, (u8, Nanos)>,
    idle_reset: Nanos,
    key: Stream,
    seq: u8,
    now: Nanos,
)
    requires
        m.dom().len() <= 1024,
        m.contains_key(key) ==> m[key].1 <= now,
    ensures
        seq == 0 ==> fresh(m, idle_reset, key, seq, now),
        !m.contains_key(key) ==> fresh(m, idle_reset, key, seq, now),
        m.contains_key(key) && now - m[key].1 >= idle_reset ==> fresh(
            m,
            idle_reset,
            key,
            seq,
            now,
        ),
        m.contains_key(key) && now - m[key].1 < idle_reset && seq != 0 ==> (fresh(
            m,
            idle_reset,
            key,
            seq,
            now,
        ) <==> (1 <= seq - m[key].0 <= 127 || 1 <= seq - m[key].0 + 256 <= 127)),
{
}

/// The standard window is two seconds: a number that is repeated on a stream is stale
/// until then, and fresh from then on.
pub proof fn law_standard_window(m: Map<Stream, (u8, Nanos)>, key: Stream, now: Nanos)
    requires
        m.dom().len() <= 1024,
        m.contains_key(key),
        m[key].0 != 0,
        m[key].1 <= now,
    ensures
        fresh(m, SEQ_IDLE_RESET, key, m[key].0, now) <==> now - m[key].1 >= 2_000_000_000,
{
}

/// A fresh numbered packet becomes the last of its stream; a stale one and one without a
/// number change nothing. More than 1024 streams are forgotten before a numbered packet.
pub proof fn law_fresh_packets_are_remembered(
    m: Map<Stream, (u8, Nanos)>,
    idle_reset: Nanos,
    key: Stream,
    seq: u8,
    now: Nanos,
    other: Stream,
)
    requires
        other != key,
    ensures
        seq == 0 ==> noted(m, idle_reset, key, seq, now) == m,
        seq != 0 && fresh(m, idle_reset, key, seq, now) ==> {
            &&& noted(m, idle_reset, key, seq, now).contains_key(key)
            &&& noted(m, idle_reset, key, seq, now)[key] == (seq, now)
        },
        !fresh(m, idle_reset, key, seq, now) ==> noted(m, idle_reset, key, seq, now) == m,
        m.dom().len() <= 1024 ==> noted(m, idle_reset, key, seq, now).contains_key(other)
            == m.contains_key(other),
        m.dom().len() > 1024 && seq != 0 ==> !noted(m, idle_reset, key, seq, now).contains_key(
            other,
        ),
{
}

/// A preview shows each channel in three places, a blank between two: channel `i` stands
/// at `4 * i`, right-aligned, and reads as its value.
pub proof fn law_preview_cells(data: Seq<u8>, i: int)
    requires
        0 <= i < data.len(),
    ensures
        cells(data).len() == 4 * data.len() - 1,
        cells(data).subrange(4 * i, 4 * i + 3) == padded(dec(data[i] as nat), 3),
        i + 1 < data.len() ==> cells(data)[4 * i + 3] == ' ',
    decreases data.len(),
{
    let cell = padded(dec(data.last() as nat), 3);
    lemma_cell(data.last());
    if data.len() == 1 {
        assert(cells(data).subrange(0, 3) =~= cell);
    } else {
        let init = data.drop_last();
        if i < init.len() {
            law_preview_cells(init, i);
            assert(cells(data).subrange(4 * i, 4 * i + 3) =~= cells(init).subrange(
                4 * i,
                4 * i + 3,
            ));
        } else {
            law_preview_cells(init, 0);
            assert(cells(data).subrange(4 * i, 4 * i + 3) =~= cell);
            law_preview_cells(init, i - 1);
        }
        if i + 1 == init.len() {
            assert(cells(data)[4 * i + 3] == ' ');
        }
    }
}

proof fn lemma_cell(b: u8)
    ensures
        padded(dec(b as nat), 3).len() == 3,
{
    reveal_with_fuel(dec, 4);
    crate::text::laws::law_padding_is_on_the_left(dec(b as nat), 3);
}

/// A preview of no more channels than there are ends in an ellipsis where it leaves some
/// out; a longer buffer with the same beginning has the same cells.
pub proof fn law_preview_is_cut(data: Seq<u8>, more: Seq<u8>, n: int)
    requires
        data.len() == n,
    ensures
        preview_text(data, n) == "["@ + cells(data) + "]"@,
        more.len() > 0 ==> preview_text(data + more, n) == "["@ + cells(data) + " …"@ + "]"@,
{
    assert(data.take(n) =~= data);
    assert((data + more).take(n) =~= data);
    reveal_strlit("");
    assert(""@ =~= Seq::<char>::empty());
    assert("["@ + cells(data) + ""@ + "]"@ =~= "["@ + cells(data) + "]"@);
}

} // verus!
