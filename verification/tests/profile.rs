use neewer_bridge::profile::{
    brightness_value, cct_value, extract_slice, gm_value, hue_value, map_dmx, pixel_effect_select,
    sat_value, CctRange, Profile, PIXEL_SEGMENTS,
};
use neewer_bridge::protocol::pixel::Block;
use neewer_bridge::protocol::Mode;

#[test]
fn channel_counts() {
    assert_eq!(Profile::Cct.channel_count(), 2);
    assert_eq!(Profile::CctGm.channel_count(), 3);
    assert_eq!(Profile::Hsi.channel_count(), 3);
    assert_eq!(Profile::Rgb.channel_count(), 3);
    assert_eq!(Profile::Rgbcw.channel_count(), 5);
    assert_eq!(Profile::Full.channel_count(), 5);
}

#[test]
fn rgbcw_profile_direct_passthrough() {
    // ch1-5 = R, G, B, CW, WW straight through; master brightness fixed at 100.
    let st = map_dmx(Profile::Rgbcw, &[10, 20, 30, 40, 50], CctRange::default());
    assert_eq!(st.mode, Mode::Rgbcw);
    assert!(st.power);
    assert_eq!(st.brightness, 100);
    assert_eq!((st.r, st.g, st.b, st.cw, st.ww), (10, 20, 30, 40, 50));

    // Full white via the dedicated white channels (openHAB tunablewhite), colour off.
    let w = map_dmx(Profile::Rgbcw, &[0, 0, 0, 255, 255], CctRange::default());
    assert_eq!((w.r, w.g, w.b, w.cw, w.ww), (0, 0, 0, 255, 255));

    // Short slice is defensive: missing white channels read as 0.
    let s = map_dmx(Profile::Rgbcw, &[255, 0, 0], CctRange::default());
    assert_eq!((s.r, s.g, s.b, s.cw, s.ww), (255, 0, 0, 0, 0));
}

#[test]
fn rgb_profile_converts_to_hsi() {
    // Pure red → hue 0, full sat, full brightness.
    let red = map_dmx(Profile::Rgb, &[255, 0, 0], CctRange::default());
    assert_eq!(red.mode, Mode::Hsi);
    assert!(red.power);
    assert_eq!((red.hue, red.sat, red.brightness), (0, 100, 100));

    // Pure green / blue hit their HSV sector centres.
    let green = map_dmx(Profile::Rgb, &[0, 255, 0], CctRange::default());
    assert_eq!((green.hue, green.sat, green.brightness), (120, 100, 100));
    let blue = map_dmx(Profile::Rgb, &[0, 0, 255], CctRange::default());
    assert_eq!((blue.hue, blue.sat, blue.brightness), (240, 100, 100));

    // White = desaturated; level rides in the channel values.
    let white = map_dmx(Profile::Rgb, &[255, 255, 255], CctRange::default());
    assert_eq!((white.sat, white.brightness), (0, 100));
    let half = map_dmx(Profile::Rgb, &[128, 128, 128], CctRange::default());
    assert_eq!((half.sat, half.brightness), (0, 50));

    // Black → brightness 0 (dark, but power stays on).
    let black = map_dmx(Profile::Rgb, &[0, 0, 0], CctRange::default());
    assert_eq!(black.brightness, 0);
    assert!(black.power);

    // Magenta (max = r, g < b) wraps via rem_euclid instead of going negative.
    let magenta = map_dmx(Profile::Rgb, &[255, 0, 255], CctRange::default());
    assert_eq!((magenta.hue, magenta.sat), (300, 100));
}

#[test]
fn scaling_endpoints_and_midpoint() {
    assert_eq!(brightness_value(0), 0);
    assert_eq!(brightness_value(255), 100);
    assert_eq!(brightness_value(128), 50);
    assert_eq!(hue_value(0), 0);
    assert_eq!(hue_value(255), 360);
    assert_eq!(sat_value(255), 100);
    assert_eq!(gm_value(0), -50);
    assert_eq!(gm_value(255), 50);
    assert_eq!(gm_value(128), 0);
    assert_eq!(cct_value(0, CctRange::default()), 32);
    assert_eq!(cct_value(255, CctRange::default()), 56);
    // TL120C real range 2500..10000K (raw 25..100): endpoints + midpoint.
    let tl = CctRange { min: 25, max: 100 };
    assert_eq!(cct_value(0, tl), 25); // 2500K
    assert_eq!(cct_value(255, tl), 100); // 10000K
    assert_eq!(cct_value(128, tl), 63); // ~6300K mid
}

#[test]
fn cct_profile_maps() {
    let st = map_dmx(Profile::Cct, &[255, 255], CctRange::default());
    assert!(st.power);
    assert_eq!(st.mode, Mode::Cct);
    assert_eq!(st.brightness, 100);
    assert_eq!(st.cct, 56);
}

#[test]
fn full_profile_mode_channel_switches() {
    // mode byte 0 -> CCT mode: ch3=CCT, ch4=GM
    let cct_mode = map_dmx(Profile::Full, &[255, 0, 0, 255, 0], CctRange::default());
    assert_eq!(cct_mode.mode, Mode::Cct);
    assert_eq!(cct_mode.cct, 32); // ch3=0 -> min
    assert_eq!(cct_mode.gm, 50); // ch4=255 -> +50

    // mode byte 200 (>=128) -> HSI mode: ch3=Hue, ch4=Sat
    let hsi_mode = map_dmx(Profile::Full, &[128, 200, 255, 255, 0], CctRange::default());
    assert_eq!(hsi_mode.mode, Mode::Hsi);
    assert_eq!(hsi_mode.brightness, 50);
    assert_eq!(hsi_mode.hue, 360);
    assert_eq!(hsi_mode.sat, 100);
}

#[test]
fn advanced_mode_bands() {
    let tl = CctRange { min: 25, max: 100 };
    let m = |sel: u8, rest: &[u8]| {
        let mut s = vec![sel, 255]; // mode-select, full dimmer
        s.extend_from_slice(rest);
        map_dmx(Profile::Advanced, &s, tl)
    };
    // CCT band (0-31)
    let c = m(0, &[255, 128]);
    assert_eq!(c.mode, Mode::Cct);
    assert_eq!(c.cct, 100); // ch3=255 -> max
    // HSI band (32-63)
    let h = m(40, &[255, 255]);
    assert_eq!(h.mode, Mode::Hsi);
    assert_eq!(h.hue, 360);
    assert_eq!(h.sat, 100);
    // FX band (64-95): ch3 effect-select, ch4 speed
    let f = m(80, &[0, 255, 255, 0, 0, 0, 0]);
    assert_eq!(f.mode, Mode::Fx);
    assert_eq!(f.fx_id, 1); // ch3=0 -> effect 1
    assert_eq!(f.fx_speed, 10); // ch4=255 -> 10
    // XY band (192-231): ch3=X, ch4=Y
    let xy = m(200, &[255, 0]);
    assert_eq!(xy.mode, Mode::Xy);
    assert_eq!(xy.x, 8000); // ch3=255 -> 0.8000
    assert_eq!(xy.y, 0);
    // GEL band (96-127) -> neutral CCT
    assert_eq!(m(100, &[0, 0]).mode, Mode::Cct);
    // RGBCW band (128-159): ch3-7 = R,G,B,CW,WW (raw 8-bit), ch2 = dimmer.
    let rgbcw = m(130, &[255, 0, 0, 0, 0]);
    assert_eq!(rgbcw.mode, Mode::Rgbcw);
    assert_eq!(rgbcw.brightness, 100);
    assert_eq!((rgbcw.r, rgbcw.g, rgbcw.b, rgbcw.cw, rgbcw.ww), (255, 0, 0, 0, 0));
}

#[test]
fn pixel_profile_maps_segments() {
    assert_eq!(Profile::Pixel.channel_count(), 20);
    // ch1 Dimmer=255, ch2 Effect=0(→1), ch3 Speed=0, ch4 Dir=255, then 8×(Hue,Sat).
    let mut dmx = vec![255u8, 0, 0, 255];
    for _ in 0..PIXEL_SEGMENTS {
        dmx.push(255); // hue
        dmx.push(255); // sat
    }
    let st = map_dmx(Profile::Pixel, &dmx, CctRange::default());
    assert_eq!(st.mode, Mode::Pixel);
    assert!(st.power);
    assert_eq!(st.brightness, 100);
    assert_eq!(st.pixel_effect, 1);
    assert_eq!(st.pixel_speed, 0);
    assert_eq!(st.pixel_dir, 1); // ch4=255 → dir 1
    assert_eq!(st.seg_count, 8);
    assert_eq!(st.segments[0], Block::Hsi { hue: 360, sat: 100 });
    assert_eq!(st.pixel_blocks().len(), 8);

    // Effect band ch2=128 → effect 4 (TwoColorMoving); dir ch4=0; colours from ch5.
    let mut dmx2 = vec![200u8, 128, 128, 0];
    dmx2.extend_from_slice(&[0, 255]); // seg1 hue=0, sat=100
    dmx2.extend_from_slice(&[170, 255]); // seg2 hue≈240
    dmx2.resize(20, 0);
    let st2 = map_dmx(Profile::Pixel, &dmx2, CctRange::default());
    assert_eq!(st2.pixel_effect, 4);
    assert_eq!(st2.pixel_dir, 0);
    assert_eq!(st2.segments[0], Block::Hsi { hue: 0, sat: 100 });
    assert_eq!(st2.segments[1], Block::Hsi { hue: 240, sat: 100 });
}

#[test]
fn pixel_effect_select_bands() {
    assert_eq!(pixel_effect_select(0), 1);
    assert_eq!(pixel_effect_select(51), 1);
    assert_eq!(pixel_effect_select(52), 3);
    assert_eq!(pixel_effect_select(102), 3);
    assert_eq!(pixel_effect_select(103), 4);
    assert_eq!(pixel_effect_select(204), 5);
    assert_eq!(pixel_effect_select(205), 7);
    assert_eq!(pixel_effect_select(255), 7);
}

#[test]
fn short_slice_is_defensive_not_panicking() {
    // Only 1 byte supplied for a 3-channel profile — missing read as 0.
    let st = map_dmx(Profile::Hsi, &[255], CctRange::default());
    assert_eq!(st.brightness, 100);
    assert_eq!(st.hue, 0);
    assert_eq!(st.sat, 0);
}

#[test]
fn extract_slice_bounds() {
    let buf = [10u8, 20, 30, 40, 50];
    assert_eq!(extract_slice(&buf, 1, 2), Some(&[10u8, 20][..]));
    assert_eq!(extract_slice(&buf, 4, 2), Some(&[40u8, 50][..]));
    assert_eq!(extract_slice(&buf, 5, 2), None); // runs past end
    assert_eq!(extract_slice(&buf, 0, 1), None); // 0 is invalid (1-based)
}
