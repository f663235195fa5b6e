use neewer_bridge::protocol::checksum;
use neewer_bridge::protocol::queries::{battery, state, streamer_support, temperature, version};


const MAC: [u8; 6] = [0xCC, 0x8D, 0xBE, 0xBB, 0x25, 0xB0];

fn assert_mac_frame(f: &[u8], op: u8, len: u8, extra: &[u8]) {
    assert_eq!(f[0], 0x78);
    assert_eq!(f[1], op);
    assert_eq!(f[2], len);
    assert_eq!(&f[3..9], &MAC);
    assert_eq!(&f[9..f.len() - 1], extra);
    assert_eq!(*f.last().unwrap(), checksum(&f[..f.len() - 1]));
}

#[test]
fn battery_frame() {
    assert_mac_frame(&battery(MAC), 0x95, 0x06, &[]);
    assert_eq!(battery(MAC).len(), 10); // 3 hdr + 6 mac + 1 ck
}

#[test]
fn version_frame() {
    assert_mac_frame(&version(MAC), 0x9E, 0x06, &[]);
}

#[test]
fn temperature_frame() {
    assert_mac_frame(&temperature(MAC), 0xB3, 0x06, &[]);
}

#[test]
fn state_frame() {
    // 0x8E carries an inner 0x85 sub-op, so LEN is 7 (6 MAC + 1) and there's a
    // trailing 0x85 before the checksum.
    assert_mac_frame(&state(MAC), 0x8E, 0x07, &[0x85]);
    assert_eq!(state(MAC).len(), 11);
}

#[test]
fn streamer_support_frame() {
    // 78 C4 06 <MAC6> ck — same shape as the other MAC reads.
    assert_mac_frame(&streamer_support(MAC), 0xC4, 0x06, &[]);
    assert_eq!(streamer_support(MAC).len(), 10);
}
