use neewer_bridge::protocol::checksum;
use neewer_bridge::protocol::home::{bcd, cct, hsi, power};

fn hex(b: &[u8]) -> String {
    b.iter().map(|x| format!("{:02X}", x)).collect::<Vec<_>>().join("")
}

#[test]
fn bcd_digits() {
    assert_eq!(bcd(500), (50, 0));
    assert_eq!(bcd(1000), (100, 0));
    assert_eq!(bcd(2000), (100, 0)); // clamps
}

#[test]
fn home_power_frames() {
    assert_eq!(hex(&power(true)), "7A0A010186");
    assert_eq!(hex(&power(false)), "7A0A010287");
}

#[test]
fn cct_matches_capture() {
    assert_eq!(hex(&cct(500, 0x20)), "7A0C0632002000010 0DF".replace(' ', ""));
}

#[test]
fn hsi_structure_self_consistent_checksum() {
    let f = hsi(1000, 240, 100);
    assert_eq!(&f[0..4], &[0x7A, 0x0D, 0x00, 0x0A]);
    assert_eq!(f.len(), 15);
    // brr 1000 -> (100, 0); hue 240 big-endian -> 00 F0
    assert_eq!(&f[4..6], &[100, 0]);
    assert_eq!(&f[8..10], &[0x00, 0xF0]);
    assert_eq!(*f.last().unwrap(), checksum(&f[..f.len() - 1]));
}
