use neewer_bridge::protocol::checksum;
use neewer_bridge::protocol::infinity::{cct, fx, hsi, power};

fn hex(b: &[u8]) -> String {
    b.iter().map(|x| format!("{:02X}", x)).collect::<Vec<_>>().join("")
}

const MAC: [u8; 6] = [0xF7, 0xAC, 0x16, 0xF1, 0x58, 0x96];

#[test]
fn power_matches_captures() {
    // "788D 08F7 AC16 F158 9681 0127" / "...9681 0228"
    assert_eq!(hex(&power(MAC, true)), "788D08F7AC16F158968101 27".replace(' ', ""));
    assert_eq!(hex(&power(MAC, false)), "788D08F7AC16F1589681 0228".replace(' ', ""));
}

#[test]
fn hsi_matches_capture() {
    // "788F 0CF7 AC16 F158 9686 4500 5C32 0004"
    // hue=0x0045=69, sat=0x5C=92, brr=0x32=50
    assert_eq!(hex(&hsi(MAC, 0x0045, 0x5C, 0x32)), "788F0CF7AC16F158968645005C320004");
}

#[test]
fn fx_lightning_frame() {
    // Lightning(1), INT=100(0x64), CCT=0x38(5600K), speed=5. data=[01 64 38 05],
    // len=4+7=0x0B. 78 91 0B <MAC6> 8B 01 64 38 05 <ck>.
    assert_eq!(hex(&fx(MAC, 1, 100, 0x38, 0, 0, 0, 5, 0, 0)), "78910BF7AC16F158968B01643805D9");
}

#[test]
fn fx_hue_pulse_layout() {
    // HUE pulse(9): data = [09 INT hueLo hueHi SAT speed], len=6+7=0x0D.
    let f = fx(MAC, 9, 80, 0, 0, 0x0078 /*120*/, 100, 7, 0, 0);
    assert_eq!(&f[0..3], &[0x78, 0x91, 0x0D]);
    assert_eq!(&f[3..9], &MAC);
    assert_eq!(f[9], 0x8B);
    assert_eq!(&f[10..16], &[9, 80, 0x78, 0x00, 100, 7]); // id,int,hueLo,hueHi,sat,speed
    assert_eq!(*f.last().unwrap(), checksum(&f[..f.len() - 1]));
}

#[test]
fn fx_cct_loop_uses_val2_as_second_cct() {
    // CCT loop(13): [13 INT CCT1 CCT2 speed]; val2 low byte = CCT2.
    let f = fx(MAC, 13, 100, 0x20, 0, 0, 0, 4, 0, 0x0048);
    assert_eq!(&f[10..15], &[13, 100, 0x20, 0x48, 4]);
}

#[test]
fn cct_structure_and_checksum() {
    // No exact public capture for a brr/cct/gm combo, so verify structure:
    // 78 90 0B <mac6> 87 <brr> <cct> <gm+50> 04 <ck> = 3+6+1+4+1 = 15 bytes.
    let f = cct(MAC, 0x32, 0x38, 0);
    assert_eq!(f.len(), 15);
    assert_eq!(&f[0..3], &[0x78, 0x90, 0x0B]);
    assert_eq!(&f[3..9], &MAC);
    assert_eq!(f[9], 0x87);
    assert_eq!(&f[10..14], &[0x32, 0x38, 50, 0x04]); // brr, cct, gm+50, dimming-curve
    assert_eq!(*f.last().unwrap(), checksum(&f[..f.len() - 1]));
}
