use neewer_bridge::protocol::replies::{parse, Reply};

#[test]
fn battery_percentage() {
    // 78 05 08 <MAC6> <pct@9> …  pct=0x50=80.
    let f = [0x78, 0x05, 0x08, 0, 0, 0, 0, 0, 0, 0x50];
    assert_eq!(parse(&f), Some(Reply::Battery { percent: 80 }));
}

#[test]
fn battery_external_flag() {
    // TL120C on mains reports 0xF0 (>100) → not a percentage.
    let f = [0x78, 0x05, 0x08, 0, 0, 0, 0, 0, 0, 0xF0];
    assert_eq!(parse(&f), Some(Reply::ExternalPower { raw: 0xF0 }));
}

#[test]
fn version_by_mac_matches_tl120c_capture() {
    // Real capture: 78 08 17 <MAC6> 01 0a 02 00 05 … → version bytes [11,12,13] = 2.0.5.
    let f = [
        0x78, 0x08, 0x17, 0xCC, 0x8D, 0xBE, 0xBB, 0x25, 0xB0, 0x01, 0x0a, 0x02, 0x00, 0x05,
        0x02, 0x54, 0x4c,
    ];
    assert_eq!(parse(&f), Some(Reply::Version { major: 2, minor: 0, patch: 5, by_mac: true }));
}

#[test]
fn temperature_offset_by_fifty() {
    // raw byte 0x4B (75) at index 9 → 75 - 50 = 25 °C.
    let f = [0x78, 0x12, 0x08, 0, 0, 0, 0, 0, 0, 0x4B];
    assert_eq!(parse(&f), Some(Reply::Temperature { celsius: 25 }));
}

#[test]
fn state_mode_and_power() {
    // 78 04 … mode@9 power@10.
    let f = [0x78, 0x04, 0x0a, 0, 0, 0, 0, 0, 0, 0x02, 0x01];
    assert_eq!(parse(&f), Some(Reply::State { mode: 2, on: true }));
}

/// Append the additive checksum to a frame body, completing it per its LEN.
fn ck(body: &[u8]) -> Vec<u8> {
    let mut f = body.to_vec();
    f.push(body.iter().fold(0u8, |a, b| a.wrapping_add(*b)));
    f
}

#[test]
fn complete_frame_with_valid_checksum_decodes() {
    // 78 05 08 <MAC6> <pct> <spare> <ck> - a full 12-byte battery reply.
    let f = ck(&[0x78, 0x05, 0x08, 1, 2, 3, 4, 5, 6, 0x50, 0x00]);
    assert_eq!(f.len(), 12);
    assert_eq!(parse(&f), Some(Reply::Battery { percent: 80 }));
}

#[test]
fn complete_frame_with_bad_checksum_is_rejected() {
    let mut f = ck(&[0x78, 0x05, 0x08, 1, 2, 3, 4, 5, 6, 0x50, 0x00]);
    let last = f.len() - 1;
    f[last] ^= 0xFF;
    assert_eq!(parse(&f), None, "a corrupt complete frame must not decode");
}

#[test]
fn truncated_frames_still_decode_leniently() {
    // MTU truncation is real on this hardware (default ATT MTU carries 20
    // bytes; the TL120C's version reply is 27) - a frame cut short of its
    // declared LEN cannot be checksum-verified and must still decode.
    let f = [0x78, 0x05, 0x08, 1, 2, 3, 4, 5, 6, 0x50]; // 10 of 12 bytes
    assert_eq!(parse(&f), Some(Reply::Battery { percent: 80 }));
}

#[test]
fn unknown_or_short_is_none() {
    assert_eq!(parse(&[0x78, 0x01, 0x01, 0x03]), None); // channel-update push: not decoded
    assert_eq!(parse(&[0x78, 0x05]), None); // truncated before the battery byte
    assert_eq!(parse(&[0x11, 0x22]), None); // not a Neewer frame
}

#[test]
fn any_changed_byte_but_the_length_is_noticed() {
    let mut frame = vec![0x78u8, 0x05, 0x08, 1, 2, 3, 4, 5, 6, 80, 0];
    frame.push(frame.iter().fold(0u8, |s, b| s.wrapping_add(*b)));
    assert_eq!(parse(&frame), Some(Reply::Battery { percent: 80 }));
    for i in (0..frame.len()).filter(|i| *i != 2) {
        let mut bad = frame.clone();
        bad[i] ^= 0x10;
        assert_eq!(parse(&bad), None, "byte {i}");
    }
    // Cut behind the last byte that the opcode needs, it still decodes.
    assert_eq!(parse(&frame[..10]), parse(&frame));
    assert_eq!(parse(&frame[..9]), None);
}
