use neewer_bridge::driver::Driver;
use neewer_bridge::profile::{map_dmx, CctRange, Profile};
use neewer_bridge::protocol::{classic, home, infinity, pixel, LightState, Mode};

fn cct_state(brr: u8, cct: u8, gm: i8) -> LightState {
    LightState { mode: Mode::Cct, brightness: brr, cct, gm, ..LightState::default() }
}
fn hsi_state(hue: u16, sat: u8, brr: u8) -> LightState {
    LightState { mode: Mode::Hsi, hue, sat, brightness: brr, ..LightState::default() }
}

#[test]
fn classic_dispatch() {
    let mac = [0xAA, 0xBB, 0xCC, 0xDD, 0xEE, 0xFF];
    let no_gm = Driver::Classic { supports_gm: false, mac, mac_frames: true };
    assert_eq!(no_gm.apply(&cct_state(50, 56, 0)), classic::cct2(50, 56));
    let gm = Driver::Classic { supports_gm: true, mac, mac_frames: true };
    assert_eq!(gm.apply(&cct_state(50, 56, -10)), classic::cct4(50, 56, -10));
    assert_eq!(no_gm.apply(&hsi_state(180, 100, 75)), classic::hsi(180, 100, 75));
}

#[test]
fn advanced_mode_dispatch() {
    let mac = [1, 2, 3, 4, 5, 6];
    let d = Driver::Classic { supports_gm: true, mac, mac_frames: true };
    // XY uses the MAC-addressed frame (TL120C ignores the direct form).
    let xy = LightState { mode: Mode::Xy, brightness: 80, x: 3127, y: 3290, ..LightState::default() };
    assert_eq!(d.apply(&xy), classic::xy_mac(mac, 80, 3127, 3290));
    // FX uses the MAC-embedded frame even under a classic driver.
    let fx = LightState { mode: Mode::Fx, brightness: 100, cct: 56, fx_id: 1, fx_speed: 5, ..LightState::default() };
    assert_eq!(d.apply(&fx), infinity::fx(mac, 1, 100, 56, 0, 0, 0, 5, 0, 0));
    // RGBCW uses the by-MAC frame (0xA9) — direct 0xA8 is ignored on the TL120C.
    let rgbcw = LightState { mode: Mode::Rgbcw, brightness: 100, r: 255, g: 0, b: 0, ..LightState::default() };
    assert_eq!(d.apply(&rgbcw), classic::rgbcw_mac(mac, 100, 255, 0, 0, 0, 0, 0));
}

#[test]
fn advanced_mode_dispatch_direct_frames() {
    // cmd_type != 2 (e.g. the TL21C): XY/RGBCW/FX use the DIRECT frame forms
    // (0xB9 / 0xA8 / 0x8B): the TL21C renders FX via 0x8B only and ignores every
    // MAC-embedded control frame.
    let mac = [1, 2, 3, 4, 5, 6];
    let d = Driver::Classic { supports_gm: false, mac, mac_frames: false };
    let xy = LightState { mode: Mode::Xy, brightness: 80, x: 3127, y: 3290, ..LightState::default() };
    assert_eq!(d.apply(&xy), classic::xy(80, 3127, 3290));
    let fx = LightState { mode: Mode::Fx, brightness: 100, cct: 56, fx_id: 1, fx_speed: 5, ..LightState::default() };
    assert_eq!(d.apply(&fx), infinity::fx_direct(1, 100, 56, 0, 0, 0, 5, 0, 0));
    let rgbcw = LightState { mode: Mode::Rgbcw, brightness: 100, r: 255, g: 0, b: 0, ..LightState::default() };
    assert_eq!(d.apply(&rgbcw), classic::rgbcw(100, 255, 0, 0, 0, 0, 0));
    // CCT/HSI are unaffected by the split.
    assert_eq!(d.apply(&cct_state(50, 56, 0)), classic::cct2(50, 56));
}

#[test]
fn pixel_apply_frames_emits_params_and_palette() {
    let mac = [0xCC, 0x8D, 0xBE, 0xBB, 0x25, 0xB0];
    let d = Driver::Classic { supports_gm: true, mac, mac_frames: true };
    let mut st = LightState { mode: Mode::Pixel, brightness: 100, seg_count: 2, pixel_speed: 30, pixel_effect: 1, ..LightState::default() };
    st.segments[0] = pixel::Block::Hsi { hue: 0, sat: 100 };
    st.segments[1] = pixel::Block::Hsi { hue: 240, sat: 100 };
    let frames = d.apply_frames(&st);
    // params + one palette (≤6 colours) = 2 frames.
    assert_eq!(frames.len(), 2);
    // Palette frame must match the pixel encoder for the same blocks.
    assert_eq!(frames[1], pixel::palette(mac, 1, 1, st.pixel_blocks()));
    // Home degrades pixel to a single neutral-CCT frame.
    assert_eq!(Driver::Home.apply_frames(&st).len(), 1);
}

#[test]
fn infinity_and_home_dispatch() {
    let mac = [1, 2, 3, 4, 5, 6];
    let inf = Driver::Infinity { mac };
    assert_eq!(inf.apply(&cct_state(50, 40, 5)), infinity::cct(mac, 50, 40, 5));
    assert_eq!(inf.power(true), infinity::power(mac, true));

    let h = Driver::Home;
    assert_eq!(h.apply(&cct_state(50, 40, 0)), home::cct(500, 40));
    assert_eq!(h.apply(&hsi_state(240, 100, 100)), home::hsi(1000, 240, 100));
}

/// The exact BLE bytes of the bring-up steps, from DMX through the profile and the
/// driver.
#[test]
fn cct_profile_pipeline_matches_the_bringup_doc_byte_table() {
    let drv = Driver::Classic { supports_gm: false, mac: [0; 6], mac_frames: true };
    let hex = |b: &[u8]| {
        b.iter().map(|x| format!("{x:02x}")).collect::<Vec<_>>().join(" ")
    };
    // (DMX [dimmer, cct], expected write).
    let cases: &[([u8; 2], &str)] = &[
        ([255, 255], "78 87 02 64 38 9d"), // brr 100, cct 56
        ([128, 255], "78 87 02 32 38 6b"), // brr 50,  cct 56
        ([255, 0], "78 87 02 64 20 85"),   // brr 100, cct 32
    ];
    for (dmx, want) in cases {
        let st = map_dmx(Profile::Cct, dmx, CctRange::default());
        assert_eq!(hex(&drv.apply(&st)), *want, "dmx {dmx:?}");
    }
}

#[test]
fn resolve_auto_detects_home_from_nh_name() {
    let mac = [0u8; 6];
    assert!(matches!(
        Driver::resolve("auto", Profile::Full, mac, "NH-PD20250030", 2),
        Driver::Home
    ));
    assert!(matches!(
        Driver::resolve("auto", Profile::Cct, mac, "NEEWER-RGB660", 1),
        Driver::Classic { supports_gm: false, mac_frames: false, .. }
    ));
    assert!(matches!(
        Driver::resolve("auto", Profile::Full, mac, "NEEWER-RGB660", 2),
        Driver::Classic { supports_gm: true, mac_frames: true, .. }
    ));
}
