use neewer_bridge::protocol::ota::{
    block_at, block_count, block_frame, check_code, parse_ack, parse_type_reply, probe_frame, Ack,
    BlockKind, Header, HEADER_CLASSIFY6, HEADER_STD,
};

#[test]
fn probe_frame_is_78_d0_00_48() {
    assert_eq!(probe_frame(HEADER_STD), vec![0x78, 0xD0, 0x00, 0x48]);
    // classify-6 devices use the 0x85 header (checksum shifts accordingly).
    assert_eq!(probe_frame(HEADER_CLASSIFY6), vec![0x85, 0xD0, 0x00, 0x55]);
}

#[test]
fn parse_type_reply_distinguishes_pro() {
    assert_eq!(parse_type_reply(&[0x78, 0x1A, 0x02, 0x00, 0x94]), Some(BlockKind::Std128));
    assert_eq!(parse_type_reply(&[0x78, 0x1A, 0x02, 0x01, 0x95]), Some(BlockKind::Pro4096));
    assert_eq!(parse_type_reply(&[0x78, 0x1A, 0x02, 0x00]), None); // wrong len
    assert_eq!(parse_type_reply(&[0x78, 0x05, 0x02, 0x00, 0x00]), None); // not 0x1A
}

#[test]
fn check_code_is_additive_sum() {
    assert_eq!(check_code(&[]), 0);
    assert_eq!(check_code(&[0x01, 0x02, 0x03]), 6);
    assert_eq!(check_code(&[0xFF, 0xFF]), 0x1FE);
}

#[test]
fn check_code_matches_real_tl60_firmware() {
    // Known sums of small images.
    let ones = vec![1u8; 1000];
    assert_eq!(check_code(&ones), 1000);
    assert_eq!(check_code(&[0xFF; 4]), 0x3FC);
}

#[test]
fn header_frame_layout_and_checksum() {
    // version 3.0.5, size 142420 (0x00022C54), checkCode 0x00CBBE77, name "TL60 RGB-3".
    let h = Header {
        version: [3, 0, 5],
        size: 142420,
        check_code: 0x00CB_BE77,
        name: "TL60 RGB-3".to_string(),
        header_byte: HEADER_STD,
    };
    let f = h.frame();
    // head, op, len
    assert_eq!(f[0], 0x78);
    assert_eq!(f[1], 0x96);
    assert_eq!(f[2], 11 + 10); // payload = 11 + name(10) = 21 = 0x15
    // version
    assert_eq!(&f[3..6], &[3, 0, 5]);
    // size BE32
    assert_eq!(&f[6..10], &[0x00, 0x02, 0x2C, 0x54]);
    // checkCode BE32
    assert_eq!(&f[10..14], &[0x00, 0xCB, 0xBE, 0x77]);
    // name ASCII
    assert_eq!(&f[14..24], b"TL60 RGB-3");
    // trailing checksum = sum of all preceding & 0xFF
    let ck = f[f.len() - 1];
    let sum: u32 = f[..f.len() - 1].iter().map(|&b| b as u32).sum();
    assert_eq!(ck, sum as u8);
    assert_eq!(f.len(), 10 + 15); // name(10) + 15
}

#[test]
fn block_frame_std128() {
    let data = [0xAA, 0xBB, 0xCC];
    let f = block_frame(BlockKind::Std128, &data, HEADER_STD);
    assert_eq!(f[0], 0x78);
    assert_eq!(f[1], 0x97);
    assert_eq!(f[2], 3); // len
    assert_eq!(&f[3..6], &data);
    let ck = f[f.len() - 1];
    let sum: u32 = f[..f.len() - 1].iter().map(|&b| b as u32).sum();
    assert_eq!(ck, sum as u8);
}

#[test]
fn block_frame_std128_full_block_len_byte() {
    // A full 128-byte block: len byte = 0x80.
    let data = vec![0x00u8; 128];
    let f = block_frame(BlockKind::Std128, &data, HEADER_STD);
    assert_eq!(f[2], 0x80);
    assert_eq!(f.len(), 128 + 4);
}

#[test]
fn block_frame_pro4096_len_is_data_plus_one_le() {
    let data = [0x11, 0x22, 0x33, 0x44];
    let f = block_frame(BlockKind::Pro4096, &data, HEADER_STD);
    assert_eq!(f[0], 0x78);
    assert_eq!(f[1], 0xCF);
    // length field = data.len()+1 = 5, little-endian → 05 00
    assert_eq!(&f[2..4], &[0x05, 0x00]);
    assert_eq!(&f[4..8], &data);
    let ck = f[f.len() - 1];
    let sum: u32 = f[..f.len() - 1].iter().map(|&b| b as u32).sum();
    assert_eq!(ck, sum as u8);
}

#[test]
fn parse_ack_all_ops() {
    assert_eq!(parse_ack(&[0x78, 0x06, 0x01, 0x00, 0x7F]), Some(Ack::Next));
    assert_eq!(parse_ack(&[0x78, 0x06, 0x01, 0x01, 0x80]), Some(Ack::Resend));
    assert_eq!(parse_ack(&[0x78, 0x06, 0x01, 0x02, 0x81]), Some(Ack::Restart));
    assert_eq!(parse_ack(&[0x78, 0x06, 0x01, 0x03, 0x82]), Some(Ack::Done));
    assert_eq!(parse_ack(&[0x78, 0x06, 0x01, 0x04, 0x83]), Some(Ack::Fail));
    assert_eq!(parse_ack(&[0x78, 0x06, 0x01, 0x09, 0x88]), Some(Ack::Unknown(9)));
}

#[test]
fn parse_ack_truncates_long_frames() {
    // >5 bytes with len byte 1 → truncate to 5, read op at [3].
    assert_eq!(
        parse_ack(&[0x78, 0x06, 0x01, 0x00, 0x7F, 0xDE, 0xAD]),
        Some(Ack::Next)
    );
}

#[test]
fn parse_ack_rejects_non_acks() {
    assert_eq!(parse_ack(&[0x78, 0x05, 0x02, 0x00, 0x00]), None); // battery reply
    assert_eq!(parse_ack(&[0x78, 0x06]), None); // too short
}

#[test]
fn block_slicing() {
    let img: Vec<u8> = (0..300).map(|i| i as u8).collect();
    assert_eq!(block_count(img.len(), BlockKind::Std128), 3); // 128,128,44
    assert_eq!(block_at(&img, BlockKind::Std128, 0).unwrap().len(), 128);
    assert_eq!(block_at(&img, BlockKind::Std128, 1).unwrap().len(), 128);
    assert_eq!(block_at(&img, BlockKind::Std128, 2).unwrap().len(), 44);
    assert_eq!(block_at(&img, BlockKind::Std128, 3), None);
    // block content is contiguous
    assert_eq!(block_at(&img, BlockKind::Std128, 1).unwrap()[0], 128);
}

#[test]
fn block_count_exact_multiple() {
    assert_eq!(block_count(256, BlockKind::Std128), 2);
    assert_eq!(block_count(0, BlockKind::Std128), 0);
    assert_eq!(block_count(1, BlockKind::Std128), 1);
}

#[test]
fn block_codes_add_up_and_a_lost_block_shows() {
    let image: Vec<u8> = (0..300u32).map(|i| (i % 251) as u8).collect();
    let n = block_count(image.len(), BlockKind::Std128);
    let codes: u32 =
        (0..n).map(|i| check_code(block_at(&image, BlockKind::Std128, i).unwrap())).sum();
    assert_eq!(codes, check_code(&image));
    let lost: Vec<u8> = [&image[..128], &image[256..]].concat();
    assert_ne!(check_code(&lost), check_code(&image));
}
