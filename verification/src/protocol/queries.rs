//! MAC-addressed status query frames. The answer arrives on the notify
//! characteristic and is decoded by [`super::replies`].

use vstd::prelude::*;
use super::{sealed, well_framed, with_checksum};

verus! {

const PREFIX: u8 = 0x78;

/// A status query: `78 <op> <LEN> <MAC6> <extra>`, where `LEN` counts the MAC
/// and the extra bytes.
pub open spec fn query_frame(op: u8, mac: Seq<u8>, extra: Seq<u8>) -> Seq<u8> {
    sealed(seq![0x78u8, op, (6 + extra.len()) as u8] + mac + extra)
}

fn mac_query(op: u8, mac: [u8; 6]) -> (f: Vec<u8>)
    ensures
        f@ == query_frame(op, mac@, seq![]),
        well_framed(f@),
{
    let mut f: Vec<u8> = vec![PREFIX, op, 0x06];
    f.extend_from_slice(mac.as_slice());
    assert(f@ =~= seq![0x78u8, op, 6u8] + mac@ + Seq::<u8>::empty());
    with_checksum(f)
}

/// Battery-level query (`0x95`), answered by reply `0x05`.
pub fn battery(mac: [u8; 6]) -> (f: Vec<u8>)
    ensures
        f@ == query_frame(0x95, mac@, seq![]),
        well_framed(f@),
{
    mac_query(0x95, mac)
}

/// Firmware-version query (`0x9E`), answered by reply `0x08`.
pub fn version(mac: [u8; 6]) -> (f: Vec<u8>)
    ensures
        f@ == query_frame(0x9E, mac@, seq![]),
        well_framed(f@),
{
    mac_query(0x9E, mac)
}

/// Temperature and fan-mode query (`0xB3`), answered by reply `0x12`.
pub fn temperature(mac: [u8; 6]) -> (f: Vec<u8>)
    ensures
        f@ == query_frame(0xB3, mac@, seq![]),
        well_framed(f@),
{
    mac_query(0xB3, mac)
}

/// State and power query (`0x8E`, inner sub-op `0x85`), answered by reply `0x04`.
pub fn state(mac: [u8; 6]) -> (f: Vec<u8>)
    ensures
        f@ == query_frame(0x8E, mac@, seq![0x85u8]),
        well_framed(f@),
{
    let mut f: Vec<u8> = vec![PREFIX, 0x8E, 0x07];
    f.extend_from_slice(mac.as_slice());
    f.push(0x85);
    assert(f@ =~= seq![0x78u8, 0x8E, 7u8] + mac@ + seq![0x85u8]);
    with_checksum(f)
}

/// Streamer-support query (`0xC4`), answered by reply `0x17`. Only its being
/// answered matters: it proves that the command path is alive on lights that do
/// not answer the other queries.
pub fn streamer_support(mac: [u8; 6]) -> (f: Vec<u8>)
    ensures
        f@ == query_frame(0xC4, mac@, seq![]),
        well_framed(f@),
{
    mac_query(0xC4, mac)
}

} // verus!
