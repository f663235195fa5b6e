use neewer_bridge::protocol::{checksum, gm_byte};

#[test]
fn checksum_matches_documented_power_frames() {
    // 78 81 01 01 -> FB ; 78 81 01 02 -> FC
    assert_eq!(checksum(&[0x78, 0x81, 0x01, 0x01]), 0xFB);
    assert_eq!(checksum(&[0x78, 0x81, 0x01, 0x02]), 0xFC);
    // 7A 0A 01 01 -> 86 ; 7A 0A 01 02 -> 87
    assert_eq!(checksum(&[0x7A, 0x0A, 0x01, 0x01]), 0x86);
    assert_eq!(checksum(&[0x7A, 0x0A, 0x01, 0x02]), 0x87);
}

#[test]
fn checksum_wraps_past_256() {
    // sum = 0x78+0x87+0x05+0x36+0x3E+0x15 = 397 -> 397 & 0xFF = 0x8D
    assert_eq!(checksum(&[0x78, 0x87, 0x05, 0x36, 0x3E, 0x15, 0x00, 0x00]), 0x8D);
}

#[test]
fn gm_byte_offsets_by_fifty() {
    assert_eq!(gm_byte(0), 50);
    assert_eq!(gm_byte(-50), 0);
    assert_eq!(gm_byte(50), 100);
    assert_eq!(gm_byte(-100), 0); // clamps
}
