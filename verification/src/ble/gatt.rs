//! The GATT side of a light: which characteristics it has and how a frame is
//! written to them.

use vstd::prelude::*;
use vstd::string::*;
use crate::clock::Nanos;
use crate::protocol::{min_of, uuids};
use crate::text::{hex_digit_value, push_spaced_hex, spaced_hex};

verus! {

/// Whether position `i` of a hyphenated UUID holds a hyphen.
pub open spec fn hyphen_at(i: int) -> bool {
    i == 8 || i == 13 || i == 18 || i == 23
}

/// Whether a text is a UUID in its hyphenated form.
pub open spec fn hyphenated(s: Seq<char>) -> bool {
    &&& s.len() == 36
    &&& forall|i: int|
        0 <= i < 36 ==> if hyphen_at(i) {
            #[trigger] s[i] == '-'
        } else {
            hex_digit_value(s[i]) is Some
        }
}

/// The number that the hexadecimal digits among the first `n` characters of a text
/// write, hyphens left out.
pub open spec fn hex_upto(s: Seq<char>, n: nat) -> nat
    decreases n,
{
    if n == 0 {
        0
    } else {
        match hex_digit_value(s[n - 1]) {
            Some(d) => hex_upto(s, (n - 1) as nat) * 16 + d as nat,
            None => hex_upto(s, (n - 1) as nat),
        }
    }
}

/// The number that the hexadecimal digits of a text write, hyphens left out.
pub open spec fn hex_number(s: Seq<char>) -> nat {
    hex_upto(s, s.len())
}

/// What `Uuid::parse_str` reads out of a text, as a number.
pub uninterp spec fn uuid_value(s: Seq<char>) -> Option<u128>;

/// `uuid::Uuid::parse_str`, its result as the number that `Uuid::as_u128` gives. It
/// depends on the text alone, and a hyphenated UUID is read as the number of its
/// digits. Which other forms are accepted is left to the name.
#[verifier::external_body]
pub(crate) fn parse_uuid(text: &str) -> (r: Option<u128>)
    ensures
        r == uuid_value(text@),
        hyphenated(text@) ==> r == Some(hex_number(text@) as u128),
{
    match uuid::Uuid::parse_str(text) {
        Ok(id) => Some(id.as_u128()),
        Err(_) => None,
    }
}

/// The UUIDs of a Neewer light, as numbers.
#[derive(Debug, Clone, Copy, PartialEq, Eq, Structural)]
pub struct GattUuids {
    pub service: u128,
    pub write: u128,
    pub notify: u128,
}

/// The UUIDs of a Neewer light, as numbers.
pub open spec fn neewer_uuids() -> GattUuids {
    GattUuids {
        service: 0x69400001_b5a3_f393_e0a9_e50e24dcca99,
        write: 0x69400002_b5a3_f393_e0a9_e50e24dcca99,
        notify: 0x69400003_b5a3_f393_e0a9_e50e24dcca99,
    }
}

/// A UUID of the hyphenated form.
fn known_uuid(text: &str) -> (r: u128)
    requires
        hyphenated(text@),
    ensures
        r == hex_number(text@) as u128,
{
    match parse_uuid(text) {
        Some(id) => id,
        None => 0,
    }
}

proof fn lemma_service_uuid()
    ensures
        hyphenated(uuids::SERVICE@),
        hex_number(uuids::SERVICE@) == 0x69400001_b5a3_f393_e0a9_e50e24dcca99,
{
    reveal_strlit("69400001-b5a3-f393-e0a9-e50e24dcca99");
    let s = uuids::SERVICE@;
    reveal_with_fuel(hex_upto, 10);
    assert(hex_upto(s, 9) == 0x69400001);
    assert(hex_upto(s, 18) == 0x69400001_b5a3_f393);
    assert(hex_upto(s, 27) == 0x69400001_b5a3_f393_e0a9_e50);
    assert(hex_upto(s, 36) == 0x69400001_b5a3_f393_e0a9_e50e24dcca99);
}

proof fn lemma_write_uuid()
    ensures
        hyphenated(uuids::WRITE_CHAR@),
        hex_number(uuids::WRITE_CHAR@) == 0x69400002_b5a3_f393_e0a9_e50e24dcca99,
{
    reveal_strlit("69400002-b5a3-f393-e0a9-e50e24dcca99");
    let s = uuids::WRITE_CHAR@;
    reveal_with_fuel(hex_upto, 10);
    assert(hex_upto(s, 9) == 0x69400002);
    assert(hex_upto(s, 18) == 0x69400002_b5a3_f393);
    assert(hex_upto(s, 27) == 0x69400002_b5a3_f393_e0a9_e50);
    assert(hex_upto(s, 36) == 0x69400002_b5a3_f393_e0a9_e50e24dcca99);
}

proof fn lemma_notify_uuid()
    ensures
        hyphenated(uuids::NOTIFY_CHAR@),
        hex_number(uuids::NOTIFY_CHAR@) == 0x69400003_b5a3_f393_e0a9_e50e24dcca99,
{
    reveal_strlit("69400003-b5a3-f393-e0a9-e50e24dcca99");
    let s = uuids::NOTIFY_CHAR@;
    reveal_with_fuel(hex_upto, 10);
    assert(hex_upto(s, 9) == 0x69400003);
    assert(hex_upto(s, 18) == 0x69400003_b5a3_f393);
    assert(hex_upto(s, 27) == 0x69400003_b5a3_f393_e0a9_e50);
    assert(hex_upto(s, 36) == 0x69400003_b5a3_f393_e0a9_e50e24dcca99);
}

/// The UUIDs of a Neewer light.
pub fn gatt_uuids() -> (r: GattUuids)
    ensures
        r == neewer_uuids(),
{
    proof {
        lemma_service_uuid();
        lemma_write_uuid();
        lemma_notify_uuid();
    }
    GattUuids {
        service: known_uuid(uuids::SERVICE),
        write: known_uuid(uuids::WRITE_CHAR),
        notify: known_uuid(uuids::NOTIFY_CHAR),
    }
}

/// A characteristic as the platform reports it: its UUID and what it can do.
#[derive(Debug, Clone, Copy, PartialEq, Eq, Structural)]
pub struct CharProps {
    pub uuid: u128,
    pub read: bool,
    pub write: bool,
    pub write_without_response: bool,
}

/// The first characteristic with a UUID.
pub open spec fn first_with(chars: Seq<CharProps>, uuid: u128, r: Option<usize>) -> bool {
    match r {
        Some(i) => i < chars.len() && chars[i as int].uuid == uuid && forall|k: int|
            0 <= k < i ==> (#[trigger] chars[k]).uuid != uuid,
        None => forall|k: int| 0 <= k < chars.len() ==> (#[trigger] chars[k]).uuid != uuid,
    }
}

fn find_uuid(chars: &[CharProps], uuid: u128) -> (r: Option<usize>)
    ensures
        first_with(chars@, uuid, r),
{
    let mut i: usize = 0;
    while i < chars.len()
        invariant
            i <= chars@.len(),
            forall|k: int| 0 <= k < i ==> (#[trigger] chars@[k]).uuid != uuid,
        decreases chars@.len() - i,
    {
        if chars[i].uuid == uuid {
            return Some(i);
        }
        i += 1;
    }
    None
}

/// Which of a light's characteristics to talk to.
#[derive(Debug, Clone, Copy, PartialEq, Eq, Structural)]
pub struct NeewerChars {
    pub write: usize,
    pub notify: Option<usize>,
}

/// The device has no Neewer write characteristic.
#[derive(Debug, Clone, Copy, PartialEq, Eq, Structural)]
pub struct NotNeewer;

impl NeewerChars {
    /// Find the write and notify characteristics among all that were discovered. A
    /// light can do without the second one.
    pub fn locate(chars: &[CharProps]) -> (r: Result<Self, NotNeewer>)
        ensures
            match r {
                Ok(found) => {
                    &&& first_with(chars@, neewer_uuids().write, Some(found.write))
                    &&& first_with(chars@, neewer_uuids().notify, found.notify)
                },
                Err(_) => first_with(chars@, neewer_uuids().write, None),
            },
    {
        let ids = gatt_uuids();
        match find_uuid(chars, ids.write) {
            Some(write) => Ok(NeewerChars { write, notify: find_uuid(chars, ids.notify) }),
            None => Err(NotNeewer),
        }
    }
}

/// The first characteristic that can be read: a probe that changes nothing.
pub fn find_readable_char(chars: &[CharProps]) -> (r: Option<usize>)
    ensures
        match r {
            Some(i) => i < chars@.len() && chars@[i as int].read && forall|k: int|
                0 <= k < i ==> !(#[trigger] chars@[k]).read,
            None => forall|k: int| 0 <= k < chars@.len() ==> !(#[trigger] chars@[k]).read,
        },
{
    let mut i: usize = 0;
    while i < chars.len()
        invariant
            i <= chars@.len(),
            forall|k: int| 0 <= k < i ==> !(#[trigger] chars@[k]).read,
        decreases chars@.len() - i,
    {
        if chars[i].read {
            return Some(i);
        }
        i += 1;
    }
    None
}

/// One characteristic's identity and value, for the `inspect` diagnostic.
#[derive(Debug, Clone)]
pub struct CharInfo {
    pub uuid: String,
    pub props: String,
    pub value: Option<Vec<u8>>,
}

/// How a write is acknowledged.
#[derive(Debug, Clone, Copy, PartialEq, Eq, Structural)]
pub enum WriteMode {
    WithResponse,
    WithoutResponse,
}

/// Commands go without a response where the characteristic allows it.
pub open spec fn command_mode(c: CharProps) -> WriteMode {
    if c.write_without_response {
        WriteMode::WithoutResponse
    } else {
        WriteMode::WithResponse
    }
}

/// Firmware goes with a response where the characteristic allows it.
pub open spec fn firmware_mode(c: CharProps) -> WriteMode {
    if c.write {
        WriteMode::WithResponse
    } else {
        WriteMode::WithoutResponse
    }
}

/// Most bytes of one write at the default MTU.
pub const MAX_ATT_WRITE: usize = 20;

/// Pause between the fragments of one command.
pub const CHUNK_SETTLE: Nanos = 10_000_000;

/// Upper bound on one connect.
pub const CONNECT_TIMEOUT: Nanos = 45_000_000_000;

/// Upper bound on service discovery.
pub const DISCOVER_TIMEOUT: Nanos = 30_000_000_000;

/// How many pieces of at most [`MAX_ATT_WRITE`] bytes a frame takes.
pub open spec fn piece_count(len: nat) -> nat {
    (len + 19) / 20
}

/// A frame cut into pieces of [`MAX_ATT_WRITE`] bytes, the last one with the rest.
pub open spec fn pieces(frame: Seq<u8>) -> Seq<Seq<u8>> {
    Seq::new(
        piece_count(frame.len()),
        |i: int| frame.subrange(i * 20, min_of(i * 20 + 20, frame.len() as int)),
    )
}

/// One write of a frame, and how long to wait after it.
#[derive(Debug, Clone)]
pub struct Fragment {
    pub bytes: Vec<u8>,
    pub pause: Nanos,
}

/// The bytes of the fragments.
pub open spec fn fragment_bytes(f: Seq<Fragment>) -> Seq<Seq<u8>> {
    Seq::new(f.len(), |i: int| f[i].bytes@)
}

/// The writes of one frame.
#[derive(Debug, Clone)]
pub struct WritePlan {
    pub mode: WriteMode,
    pub fragments: Vec<Fragment>,
}

fn cut(frame: &[u8], pause: Nanos, last_pause: Nanos) -> (r: Vec<Fragment>)
    ensures
        fragment_bytes(r@) == pieces(frame@),
        forall|i: int|
            0 <= i < r@.len() ==> (#[trigger] r@[i]).pause == if i == r@.len() - 1 {
                last_pause
            } else {
                pause
            },
{
    let mut out: Vec<Fragment> = Vec::new();
    let mut at: usize = 0;
    while at < frame.len()
        invariant
            at <= frame@.len(),
            at == min_of(out@.len() * 20int, frame@.len() as int),
            out@.len() <= piece_count(frame@.len()),
            forall|i: int|
                0 <= i < out@.len() ==> (#[trigger] out@[i]).bytes@ == pieces(frame@)[i],
            forall|i: int|
                0 <= i < out@.len() ==> (#[trigger] out@[i]).pause == if i * 20 + 20
                    >= frame@.len() {
                    last_pause
                } else {
                    pause
                },
        decreases frame@.len() - at,
    {
        let end: usize = if frame.len() - at <= MAX_ATT_WRITE {
            frame.len()
        } else {
            at + MAX_ATT_WRITE
        };
        let piece = vstd::slice::slice_subrange(frame, at, end);
        out.push(
            Fragment {
                bytes: vstd::slice::slice_to_vec(piece),
                pause: if end == frame.len() {
                    last_pause
                } else {
                    pause
                },
            },
        );
        at = end;
    }
    out
}

/// How a command goes out: in one write where it fits, in pieces with a pause
/// between them otherwise.
pub fn write_command_chunked(c: CharProps, frame: &[u8]) -> (r: WritePlan)
    ensures
        r.mode == command_mode(c),
        frame@.len() <= MAX_ATT_WRITE ==> fragment_bytes(r.fragments@) == seq![frame@],
        frame@.len() > MAX_ATT_WRITE ==> fragment_bytes(r.fragments@) == pieces(frame@),
        forall|i: int|
            0 <= i < r.fragments@.len() ==> (#[trigger] r.fragments@[i]).pause == if i
                == r.fragments@.len() - 1 {
                0
            } else {
                CHUNK_SETTLE
            },
        frame@.len() <= 20 ==> r.fragments@.len() == 1,
        frame@.len() > 20 ==> r.fragments@.len() == (frame@.len() + 19) / 20,
        forall|i: int|
            0 <= i < r.fragments@.len() - 1 ==> (#[trigger] r.fragments@[i]).pause == 10_000_000,
{
    let mode = if c.write_without_response {
        WriteMode::WithoutResponse
    } else {
        WriteMode::WithResponse
    };
    if frame.len() <= MAX_ATT_WRITE {
        let mut fragments: Vec<Fragment> = Vec::new();
        fragments.push(Fragment { bytes: vstd::slice::slice_to_vec(frame), pause: 0 });
        assert(fragment_bytes(fragments@) == seq![frame@]);
        WritePlan { mode, fragments }
    } else {
        WritePlan { mode, fragments: cut(frame, CHUNK_SETTLE, 0) }
    }
}

/// How a command goes out as one write, whatever its length.
pub fn write_command(c: CharProps, frame: &[u8]) -> (r: WritePlan)
    ensures
        r.mode == command_mode(c),
        fragment_bytes(r.fragments@) == seq![frame@],
        r.fragments@[0].pause == 0,
{
    let mut fragments: Vec<Fragment> = Vec::new();
    fragments.push(Fragment { bytes: vstd::slice::slice_to_vec(frame), pause: 0 });
    assert(fragment_bytes(fragments@) == seq![frame@]);
    let mode = if c.write_without_response {
        WriteMode::WithoutResponse
    } else {
        WriteMode::WithResponse
    };
    WritePlan { mode, fragments }
}

/// How a firmware frame goes out: always in pieces, with a pause after each.
pub fn write_ota_frame(c: CharProps, frame: &[u8], chunk_delay: Nanos) -> (r: WritePlan)
    ensures
        r.mode == firmware_mode(c),
        fragment_bytes(r.fragments@) == pieces(frame@),
        forall|i: int|
            0 <= i < r.fragments@.len() ==> (#[trigger] r.fragments@[i]).pause == chunk_delay,
{
    let mode = if c.write {
        WriteMode::WithResponse
    } else {
        WriteMode::WithoutResponse
    };
    WritePlan { mode, fragments: cut(frame, chunk_delay, chunk_delay) }
}

/// What a light has received after some writes.
pub open spec fn received(parts: Seq<Seq<u8>>) -> Seq<u8>
    decreases parts.len(),
{
    if parts.len() == 0 {
        Seq::empty()
    } else {
        received(parts.drop_last()) + parts.last()
    }
}

proof fn lemma_pieces_so_far(frame: Seq<u8>, n: nat)
    requires
        n <= piece_count(frame.len()),
    ensures
        received(pieces(frame).take(n as int)) == frame.take(
            min_of(n * 20int, frame.len() as int),
        ),
    decreases n,
{
    let parts = pieces(frame).take(n as int);
    if n > 0 {
        lemma_pieces_so_far(frame, (n - 1) as nat);
        assert(parts.drop_last() == pieces(frame).take(n - 1));
        assert(parts.last() == pieces(frame)[n - 1]);
        assert(received(parts) =~= frame.take(min_of(n * 20int, frame.len() as int)));
    } else {
        assert(frame.take(0) =~= Seq::empty());
    }
}

/// The pieces of a frame, put together in order, are the frame again; none is empty
/// and none is longer than one write can be.
pub proof fn law_pieces_rebuild_the_frame(frame: Seq<u8>)
    ensures
        received(pieces(frame)) == frame,
        forall|i: int|
            0 <= i < pieces(frame).len() ==> 0 < (#[trigger] pieces(frame)[i]).len()
                <= MAX_ATT_WRITE,
{
    lemma_pieces_so_far(frame, piece_count(frame.len()));
    assert(pieces(frame).take(piece_count(frame.len()) as int) =~= pieces(frame));
    assert(frame.take(frame.len() as int) =~= frame);
}

/// Lower-case spaced hex, such as `78 81 01 01 fb`.
pub fn hexstr(bytes: &[u8]) -> (r: String)
    ensures
        r@ == spaced_hex(bytes@, false),
{
    let mut out = String::new();
    push_spaced_hex(&mut out, bytes, false);
    assert(out@ =~= spaced_hex(bytes@, false));
    out
}

/// Byte `j` of piece `i` is byte `20 * i + j` of the frame; every piece but the last has
/// twenty bytes.
pub proof fn law_pieces_are_stretches(frame: Seq<u8>, i: int, j: int)
    requires
        0 <= i,
        0 <= j < 20,
    ensures
        20 * i + j < frame.len() ==> {
            &&& i < pieces(frame).len()
            &&& j < pieces(frame)[i].len() <= 20
            &&& pieces(frame)[i][j] == frame[20 * i + j]
        },
        20 * i + 20 <= frame.len() ==> pieces(frame)[i].len() == 20,
        20 * i >= frame.len() ==> i >= pieces(frame).len(),
{
}

/// How a characteristic is written: commands wait for no response where they need not,
/// firmware waits for one where it can.
pub proof fn law_write_modes(c: CharProps)
    ensures
        command_mode(c) == WriteMode::WithoutResponse <==> c.write_without_response,
        firmware_mode(c) == WriteMode::WithResponse <==> c.write,
{
}

/// The digits of a UUID, one after the other, each weigh sixteen times the next; hyphens
/// weigh nothing.
pub proof fn law_uuid_digits(s: Seq<char>, n: nat)
    requires
        n < s.len(),
    ensures
        hex_upto(s, 0) == 0,
        s[n as int] == '-' ==> hex_upto(s, n + 1) == hex_upto(s, n),
        '0' <= s[n as int] <= '9' ==> hex_upto(s, n + 1) == 16 * hex_upto(s, n) + (s[n as int] as int
            - 48),
        'a' <= s[n as int] <= 'f' ==> hex_upto(s, n + 1) == 16 * hex_upto(s, n) + (s[n as int] as int
            - 87),
        'A' <= s[n as int] <= 'F' ==> hex_upto(s, n + 1) == 16 * hex_upto(s, n) + (s[n as int] as int
            - 55),
        hex_number(s) == hex_upto(s, s.len()),
{
}

/// What is found by its UUID is the first that has it, and there is one such at most.
pub proof fn law_first_by_uuid(chars: Seq<CharProps>, uuid: u128, r: Option<usize>, k: int)
    requires
        first_with(chars, uuid, r),
        0 <= k < chars.len() <= usize::MAX,
    ensures
        r is None ==> chars[k].uuid != uuid,
        r matches Some(i) ==> i < chars.len() && chars[i as int].uuid == uuid && (chars[k].uuid
            == uuid ==> i <= k),
{
}

/// The three UUIDs of a Neewer light differ in their first group alone, which counts up
/// from the service to the write and to the notify characteristic.
pub proof fn law_neewer_uuids()
    ensures
        neewer_uuids().service == 0x69400001_b5a3_f393_e0a9_e50e24dcca99,
        neewer_uuids().write - neewer_uuids().service == 0x1_0000_0000_0000_0000_0000_0000,
        neewer_uuids().notify - neewer_uuids().write == 0x1_0000_0000_0000_0000_0000_0000,
{
}

/// A hyphenated UUID is 36 characters: hexadecimal digits in groups of 8, 4, 4, 4 and 12,
/// a hyphen between two.
pub proof fn law_hyphenated_uuids(s: Seq<char>, i: int)
    requires
        hyphenated(s),
        0 <= i < 36,
    ensures
        s.len() == 36,
        s[8] == '-' && s[13] == '-' && s[18] == '-' && s[23] == '-',
        i != 8 && i != 13 && i != 18 && i != 23 ==> ('0' <= s[i] <= '9' || 'a' <= s[i] <= 'f' || 'A'
            <= s[i] <= 'F'),
{
    assert(hyphen_at(8) && hyphen_at(13) && hyphen_at(18) && hyphen_at(23));
    assert(s[8] == '-' && s[13] == '-' && s[18] == '-' && s[23] == '-');
    if i != 8 && i != 13 && i != 18 && i != 23 {
        assert(!hyphen_at(i));
        let c = s[i];
        assert(hex_digit_value(c) is Some);
    }
}

/// The bytes of fragments are taken fragment by fragment, in order.
pub proof fn law_fragments_in_order(f: Seq<Fragment>, i: int)
    requires
        0 <= i < f.len(),
    ensures
        fragment_bytes(f).len() == f.len(),
        fragment_bytes(f)[i] == f[i].bytes@,
{
}

} // verus!
