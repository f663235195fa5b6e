use neewer_bridge::protocol::checksum;
use neewer_bridge::protocol::classic::{
    cct3, cct4, cct_gm5, hsi, power_off, power_on, rgbcw, rgbcw_mac, scene, xy, xy_mac,
};

fn hex(b: &[u8]) -> String {
    b.iter().map(|x| format!("{:02X}", x)).collect::<Vec<_>>().join("")
}

#[test]
fn classic_power_frames() {
    assert_eq!(hex(&power_on()), "78810101FB");
    assert_eq!(hex(&power_off()), "78810102FC");
}

#[test]
fn cct5_matches_rgb62_capture() {
    // "7887 0536 3E15 0000 8D"  (brr=0x36, cct=0x3E, gm byte=0x15)
    // gm byte 0x15 = 21 -> gm = 21 - 50 = -29
    assert_eq!(hex(&cct_gm5(0x36, 0x3E, -29)), "788705363E1500008D");
}

#[test]
fn cct4_matches_app_gm_form() {
    // The app's exact 4-byte GM CCT: 78 87 04 <brr> <cct> <gm+50> 00 <ck>.
    // brr=100(0x64), cct=56(0x38=5600K), gm=0 -> gm byte 0x32(50);
    // sum 0x78+0x87+0x04+0x64+0x38+0x32+0x00 = 0x1D1 -> ck 0xD1.
    assert_eq!(hex(&cct4(100, 56, 0)), "78870464383200D1");
    // Negative GM: gm=-29 -> byte 0x15; sum -> ck 0x8C. LEN stays 0x04.
    assert_eq!(hex(&cct4(0x36, 0x3E, -29)), "788704363E15008C");
}

#[test]
fn cct3_matches_gl1_tungsten_capture() {
    // "7887 0346 2032 9A"  (brr=0x46, cct=0x20, gm byte=0x32=50 -> gm 0)
    assert_eq!(hex(&cct3(0x46, 0x20, 0)), "788703462032 9A".replace(' ', ""));
}

#[test]
fn hsi_matches_rgb62_capture() {
    // "7886 040C 0132 3273" -> hue_lo=0C hue_hi=01 (hue=0x010C=268), sat=0x32, brr=0x32
    assert_eq!(hex(&hsi(0x010C, 0x32, 0x32)), "7886040C01323273");
}

#[test]
fn scene_frame() {
    // 78 88 02 <brr> <scene> <ck>; brr=100(0x64), scene 7 (lightning) ->
    // sum 0x78+0x88+0x02+0x64+0x07 = 0x16D -> ck 0x6D.
    assert_eq!(hex(&scene(100, 7)), "78880264076D");
}

#[test]
fn xy_d65_white_point() {
    // x=0.3127 -> 3127=0x0C37 (lo 37, hi 0C); y=0.3290 -> 3290=0x0CDA (lo DA, hi 0C).
    assert_eq!(hex(&xy(100, 3127, 3290)), "78B90664370CDA0C00C4");
}

#[test]
fn rgbcw_direct_matches_app_builder() {
    // Solid red @ 100%. LEN=0x07 with 7 payload bytes, NO trailing 0x00.
    let f = rgbcw(100, 255, 0, 0, 0, 0, 0);
    assert_eq!(&f[..3], &[0x78, 0xA8, 0x07]);
    assert_eq!(&f[3..10], &[100, 255, 0, 0, 0, 0, 0]); // brr,R,G,B,CW,WW,decBrr
    assert_eq!(f.len(), 11);
    assert_eq!(*f.last().unwrap(), checksum(&f[..f.len() - 1]));
}

#[test]
fn rgbcw_mac_matches_app_builder() {
    // The form by MAC wraps the inner 0xA8 params after the MAC.
    let mac = [0xD6, 0x50, 0xF2, 0xF6, 0xBB, 0x1B];
    let f = rgbcw_mac(mac, 100, 0, 255, 0, 0, 0, 0); // solid green
    assert_eq!(&f[..3], &[0x78, 0xA9, 0x0E]);
    assert_eq!(&f[3..9], &mac);
    assert_eq!(&f[9..17], &[0xA8, 100, 0, 255, 0, 0, 0, 0]); // A8, brr,R,G,B,CW,WW,decBrr
    assert_eq!(f.len(), 18);
    assert_eq!(*f.last().unwrap(), checksum(&f[..f.len() - 1]));
}

#[test]
fn xy_mac_frame() {
    // 78 B7 0C <MAC6> <brr> <xlo xhi> <ylo yhi> 00 <ck>. len 0x0C = 6+1+2+2+1.
    let mac = [0xD6, 0x50, 0xF2, 0xF6, 0xBB, 0x1B];
    let f = xy_mac(mac, 0x5A, 6400, 3294); // x=0x1900, y=0x0CDE
    assert_eq!(&f[0..3], &[0x78, 0xB7, 0x0C]);
    assert_eq!(&f[3..9], &mac);
    assert_eq!(&f[9..15], &[0x5A, 0x00, 0x19, 0xDE, 0x0C, 0x00]); // brr, xlo,xhi, ylo,yhi, decBrr
    assert_eq!(f.len(), 16);
    assert_eq!(*f.last().unwrap(), checksum(&f[..f.len() - 1]));
}
