//! The `artnet-send` command: test values for a universe, without a console.

use vstd::prelude::*;
use crate::artnet::{distance, fresh, noted, Stream, DMX_UNIVERSE_SIZE};
use crate::clock::Nanos;

verus! {

/// Why values cannot be sent.
#[derive(Debug, Clone, Copy, PartialEq, Eq, Structural)]
pub enum PayloadError {
    /// The start address is not a channel.
    AddressOutOfRange,
    /// There are no values.
    NoChannels,
    /// The values run past the universe, to this channel: they would be dropped.
    PastTheUniverse { last: u128 },
}

/// The data of values at a 1-based address: zeros before them, and one after them where
/// the number of channels would be odd.
pub open spec fn payload(address: u16, channels: Seq<u8>) -> Seq<u8> {
    let data = Seq::new((address - 1) as nat, |i: int| 0u8) + channels;
    if data.len() % 2 == 1 {
        data.push(0)
    } else {
        data
    }
}

/// Place values at an address. Values that do not fit the universe are refused.
pub fn dmx_payload(address: u16, channels: &[u8]) -> (r: Result<Vec<u8>, PayloadError>)
    ensures
        match r {
            Ok(data) => {
                &&& 1 <= address <= DMX_UNIVERSE_SIZE
                &&& channels@.len() > 0
                &&& address + channels@.len() - 1 <= DMX_UNIVERSE_SIZE
                &&& data@ == payload(address, channels@)
            },
            Err(PayloadError::AddressOutOfRange) => !(1 <= address <= DMX_UNIVERSE_SIZE),
            Err(PayloadError::NoChannels) => {
                &&& 1 <= address <= DMX_UNIVERSE_SIZE
                &&& channels@.len() == 0
            },
            Err(PayloadError::PastTheUniverse { last }) => {
                &&& 1 <= address <= DMX_UNIVERSE_SIZE
                &&& channels@.len() > 0
                &&& last == address + channels@.len() - 1
                &&& last > DMX_UNIVERSE_SIZE
            },
        },
        r is Ok <==> 1 <= address && channels@.len() > 0 && address + channels@.len() - 1 <= 512,
{
    if !(1 <= address && address <= DMX_UNIVERSE_SIZE) {
        return Err(PayloadError::AddressOutOfRange);
    }
    if channels.len() == 0 {
        return Err(PayloadError::NoChannels);
    }
    let last: u128 = address as u128 + channels.len() as u128 - 1;
    if last > DMX_UNIVERSE_SIZE as u128 {
        return Err(PayloadError::PastTheUniverse { last });
    }
    let mut data: Vec<u8> = Vec::new();
    while data.len() < (address - 1) as usize
        invariant
            1 <= address,
            data@.len() <= address - 1,
            data@ == Seq::new(data@.len(), |i: int| 0u8),
        decreases address - data@.len(),
    {
        data.push(0);
        assert(data@ =~= Seq::new(data@.len(), |i: int| 0u8));
    }
    data.extend_from_slice(channels);
    if data.len() % 2 == 1 {
        data.push(0);
    }
    assert(data@ =~= payload(address, channels@));
    Ok(data)
}

/// The values come back from the channels they were placed at, and no other channel is
/// anything but zero; the length is one that a packet can have.
pub proof fn law_payload_places_the_values(address: u16, channels: Seq<u8>)
    requires
        1 <= address,
        channels.len() > 0,
        address + channels.len() - 1 <= DMX_UNIVERSE_SIZE,
    ensures
        ({
            let data = payload(address, channels);
            &&& data.subrange(address - 1, address - 1 + channels.len()) == channels
            &&& forall|i: int|
                0 <= i < data.len() && !(address - 1 <= i < address - 1 + channels.len())
                    ==> (#[trigger] data[i]) == 0
            &&& 2 <= data.len() <= DMX_UNIVERSE_SIZE
            &&& data.len() % 2 == 0
        }),
{
    let data = payload(address, channels);
    assert(data.subrange(address - 1, address - 1 + channels.len()) =~= channels);
}

/// The sequence number after another: they run from 1 to 255, for 0 says that packets
/// are not numbered.
pub open spec fn following(seq: u8) -> u8 {
    if seq == 255 {
        1
    } else {
        (seq + 1) as u8
    }
}

/// The sequence number after another.
pub fn next_sequence(seq: u8) -> (r: u8)
    ensures
        r == following(seq),
{
    if seq == 255 {
        1
    } else {
        seq + 1
    }
}

/// A stream that numbers its packets in this way is taken as fresh, packet after
/// packet, also where the numbers start over.
pub proof fn law_numbered_stream_stays_fresh(
    m: Map<Stream, (u8, Nanos)>,
    idle_reset: Nanos,
    key: Stream,
    seq: u8,
    at: Nanos,
    now: Nanos,
)
    requires
        seq != 0,
        fresh(m, idle_reset, key, seq, at),
    ensures
        following(seq) != 0,
        fresh(noted(m, idle_reset, key, seq, at), idle_reset, key, following(seq), now),
{
    let after = noted(m, idle_reset, key, seq, at);
    assert(after[key] == (seq, at));
    assert(1 <= distance(seq, following(seq)) <= 2);
}

/// Sequence numbers go up by one, and from 255 to 1.
pub proof fn law_sequence_numbers_go_up(seq: u8)
    ensures
        seq < 255 ==> following(seq) == seq + 1,
        seq == 255 ==> following(seq) == 1,
{
}

} // verus!
