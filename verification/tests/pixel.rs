use neewer_bridge::protocol::pixel::{
    effect1_params, paint, palette, Block, EFFECT_COLOR_REPLACEMENT, EFFECT_FIRE, EFFECT_TWO_MOVING,
    RUN_PLAY,
};

fn hex(b: &[u8]) -> String {
    b.iter().map(|x| format!("{:02x}", x)).collect::<Vec<_>>().join("")
}

// The TL120C from the verified captures.
const MAC: [u8; 6] = [0xCC, 0x8D, 0xBE, 0xBB, 0x25, 0xB0];

#[test]
fn block_encodings_match_captures() {
    // hue 0 (red) -> flag 0x10, lo 0x00, sat 100
    assert_eq!(Block::Hsi { hue: 0, sat: 100 }.bytes(), [0x10, 0x00, 100]);
    // hue 240 (blue) -> 0x00F0: flag 0x10, lo 0xF0
    assert_eq!(Block::Hsi { hue: 240, sat: 100 }.bytes(), [0x10, 0xF0, 100]);
    // hue 300 -> 0x012C: high byte 1 | 0x10 = 0x11, lo 0x2C
    assert_eq!(Block::Hsi { hue: 300, sat: 100 }.bytes(), [0x11, 0x2C, 100]);
    // hue 115 / 90 from the captured app palette
    assert_eq!(Block::Hsi { hue: 115, sat: 100 }.bytes(), [0x10, 0x73, 100]);
    assert_eq!(Block::Hsi { hue: 90, sat: 100 }.bytes(), [0x10, 0x5A, 100]);
    // CCT 3200K neutral GM
    assert_eq!(Block::Cct { cct: 32, gm: 0 }.bytes(), [0x00, 32, 50]);
    // off
    assert_eq!(Block::Off.bytes(), [0x20, 0x00, 0x00]);
}

#[test]
fn params_frame_matches_captured_app_frame() {
    // Captured (app's own checksum): 78 b0 0d cc8dbebb25b0 01 00 32 02 2e 01 01 41
    let f = effect1_params(MAC, 0x32, 0x02, 0x2e, 0x01, 0x01);
    assert_eq!(hex(&f), "78b00dcc8dbebb25b001003202 2e0101 41".replace(' ', ""));
}

#[test]
fn palette_frame_matches_captured_app_frame() {
    // Captured: 78 b0 0e cc8dbebb25b0 01 01 10 73 64 10 5a 64 94  (hue115 + hue90)
    let f = palette(
        MAC,
        EFFECT_COLOR_REPLACEMENT,
        1,
        &[Block::Hsi { hue: 115, sat: 100 }, Block::Hsi { hue: 90, sat: 100 }],
    );
    assert_eq!(hex(&f), "78b00ecc8dbebb25b00101107364105a6494");
}

#[test]
fn crafted_red_blue_matches_verified_frame() {
    // Crafted-and-rendered red+blue: 78 b0 0e cc8dbebb25b0 01 01 10 00 64 10 f0 64 b7
    let f = palette(
        MAC,
        EFFECT_COLOR_REPLACEMENT,
        1,
        &[Block::Hsi { hue: 0, sat: 100 }, Block::Hsi { hue: 240, sat: 100 }],
    );
    assert_eq!(hex(&f), "78b00ecc8dbebb25b00101100064 10f064 b7".replace(' ', ""));
}

#[test]
fn len_byte_is_mac_plus_effectdata() {
    // Both captured frames: LEN = 6 (MAC) + effectData length.
    let p = effect1_params(MAC, 0x32, 2, 0x2e, 1, 1); // effectData = 7 bytes
    assert_eq!(p[2], 0x0d);
    let q = palette(MAC, 1, 1, &[Block::Off]); // effectData = 2 + 3 = 5 bytes
    assert_eq!(q[2], 0x0b);
}

#[test]
fn paint_effect1_splits_palette_past_six_colours() {
    let blocks: Vec<Block> = (0..8).map(|i| Block::Hsi { hue: i * 40, sat: 100 }).collect();
    let frames = paint(MAC, &blocks, 100, EFFECT_COLOR_REPLACEMENT, 30, 1);
    // params + palette(0..6) + palette(6..8) = 3 frames.
    assert_eq!(frames.len(), 3);
    assert_eq!(frames[0][9], 1); // effectId in params
    assert_eq!(frames[0][15], RUN_PLAY); // running byte
    assert_eq!(frames[0][12], 8); // colorNum
    assert_eq!(frames[1][9], 1); // palette effectId
    assert_eq!(frames[1][10], 1); // subIndex 1
    assert_eq!(frames[2][10], 2); // subIndex 2
}

#[test]
fn paint_moving_effect_uses_bg_plus_n_colours() {
    // TwoColorMoving (wire 4): params [4,0,colorBri,bgBri,way,speed,dir,move,run]
    // then palette = background + 2 moving colours.
    let blocks = [
        Block::Off,                       // background
        Block::Hsi { hue: 0, sat: 100 },  // moving 1
        Block::Hsi { hue: 60, sat: 100 }, // moving 2
    ];
    let frames = paint(MAC, &blocks, 100, EFFECT_TWO_MOVING, 40, 1);
    assert_eq!(frames.len(), 2);
    assert_eq!(frames[0][9], 4); // params wire id
    assert_eq!(frames[0][10], 0); // subIndex 0
    // effectData: [4,0,colorBri,bgBri,way,speed,dir,movement,running] → running at [17]
    assert_eq!(frames[0][16], 0); // movement
    assert_eq!(frames[0][17], RUN_PLAY); // running byte (last param)
    assert_eq!(frames[1][9], 4); // palette wire id
    assert_eq!(frames[1][10], 1); // subIndex 1
    // palette effectData after [wire,sub] = bg(3) + 2×3 = 9 bytes; LEN = 6+2+9=17.
    assert_eq!(frames[1][2], (6 + 2 + 9) as u8);
}

#[test]
fn paint_fire_effect_is_params_plus_bg_and_fire() {
    let frames = paint(MAC, &[Block::Off, Block::Hsi { hue: 30, sat: 100 }], 100, EFFECT_FIRE, 20, 0);
    assert_eq!(frames.len(), 2);
    assert_eq!(frames[0][9], 7); // fire wire id
    // params: [7,0, briLo=50, briHi=100, bgBri=50, speed=20, orientation=0, run]
    assert_eq!(&frames[0][11..14], &[50, 100, 50]);
    assert_eq!(frames[1][9], 7); // palette wire id
}
