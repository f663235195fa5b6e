use neewer_bridge::artnet::{encode_artdmx, parse_artdmx};
use neewer_bridge::ble::Found;
use neewer_bridge::commands::add::{
    add, add_noninteractive, answer, declined, number_or, propose, select, AddError, AddFlags,
    Selection,
};
use neewer_bridge::commands::lists::{
    ascii, is_configured, json_escape, light_lines, model_row, scan, scan_json, scan_row,
};
use neewer_bridge::commands::ota::{
    check_image, flash_gate, probe_step, Abort, Action, FlashGate, ImageError, LinkAction,
    LinkCheck, LinkEvent, ProbeStep, Transfer,
};
use neewer_bridge::commands::probe::{
    self, blink, fx_preset, fx_preset_direct, hint_about_auto, probe_colors, probe_modes,
    probe_pixel, test_status, TestDriver, TestProbes, UnknownDriver,
};
use neewer_bridge::commands::send::{dmx_payload, next_sequence, PayloadError};
use neewer_bridge::commands::set::{build_set_plan, read_set, test_set, Arg, SetError, SetSpec};
use neewer_bridge::commands::version::{
    parse_version_triplet, version_from_filename, VersionError,
};
use neewer_bridge::config::{LightCfg, MacError, DEFAULT_CCT_MAX, DEFAULT_CCT_MIN, KNOWN_DRIVERS};
use neewer_bridge::models::Model;
use neewer_bridge::protocol::ota::{block_frame, BlockKind, Header, HEADER_STD};
use neewer_bridge::protocol::pixel::{paint, rendered_effect, Block};
use neewer_bridge::protocol::{classic, home, infinity, queries};

const TEST_MAC: [u8; 6] = [0xD6, 0x50, 0xF2, 0xF6, 0xBB, 0x1B];

#[test]
fn dmx_payload_places_channels_at_the_address() {
    // Address 1: channels sit at the front; the length is padded to the even one that a
    // packet needs.
    assert_eq!(dmx_payload(1, &[10, 20, 30]).unwrap(), vec![10, 20, 30, 0]);
    assert_eq!(dmx_payload(1, &[255]).unwrap(), vec![255, 0]);
    // Address 4: three zero channels first.
    assert_eq!(dmx_payload(4, &[1, 2, 3]).unwrap(), vec![0, 0, 0, 1, 2, 3]);
    // A patch ending exactly on the last channel is legal.
    assert_eq!(dmx_payload(512, &[7]).unwrap().len(), 512);
    assert_eq!(dmx_payload(510, &[1, 2, 3]).unwrap().len(), 512);
}

#[test]
fn dmx_payload_rejects_patches_past_the_universe() {
    assert!(dmx_payload(513, &[1]).is_err());
    assert!(dmx_payload(0, &[1]).is_err());
    assert!(dmx_payload(511, &[1, 2, 3]).is_err()); // runs to 513
    assert!(dmx_payload(1, &[]).is_err());
}

#[test]
fn payload_errors_say_what_is_wrong() {
    assert_eq!(dmx_payload(513, &[1]), Err(PayloadError::AddressOutOfRange));
    assert_eq!(dmx_payload(1, &[]), Err(PayloadError::NoChannels));
    assert_eq!(dmx_payload(511, &[1, 2, 3]), Err(PayloadError::PastTheUniverse { last: 513 }));
}

#[test]
fn a_payload_arrives_at_the_channels_it_was_placed_at() {
    let data = dmx_payload(4, &[1, 2, 3]).unwrap();
    let pkt = parse_artdmx(&encode_artdmx(7, 1, &data)).unwrap();
    assert_eq!(pkt.data[3..6], [1, 2, 3]);
}

#[test]
fn sequence_numbers_leave_out_zero() {
    assert_eq!(next_sequence(1), 2);
    assert_eq!(next_sequence(254), 255);
    assert_eq!(next_sequence(255), 1);
}

#[test]
fn version_triplet_parses_and_rejects() {
    assert_eq!(parse_version_triplet("3.0.5").unwrap(), [3, 0, 5]);
    assert_eq!(parse_version_triplet("10.20.30").unwrap(), [10, 20, 30]);
    assert!(parse_version_triplet("3.0").is_err());
    assert!(parse_version_triplet("3.0.5.1").is_err());
    assert!(parse_version_triplet("3.0.x").is_err());
    assert!(parse_version_triplet("3.0.999").is_err()); // >255
}

#[test]
fn version_errors_name_the_component() {
    assert_eq!(parse_version_triplet("3.0"), Err(VersionError::NotATriplet));
    assert_eq!(parse_version_triplet(""), Err(VersionError::NotATriplet));
    assert_eq!(parse_version_triplet("x.0.y"), Err(VersionError::Component(0)));
    assert_eq!(parse_version_triplet("3..5"), Err(VersionError::Component(1)));
    assert_eq!(parse_version_triplet("3.0.256"), Err(VersionError::Component(2)));
}

#[test]
fn version_from_real_neewer_filenames() {
    assert_eq!(version_from_filename("TL60-3_V3.0.5_20250908.bin"), Some([3, 0, 5]));
    assert_eq!(version_from_filename("TL120-2_V2.0.5_20250905.bin"), Some([2, 0, 5]));
    // Case-insensitive marker.
    assert_eq!(version_from_filename("tube_v1.2.3.bin"), Some([1, 2, 3]));
    // A lone V that isn't a version marker doesn't fool it (later marker wins).
    assert_eq!(version_from_filename("Verbatim_V4.5.6.bin"), Some([4, 5, 6]));
    // No marker: the version has to be given.
    assert_eq!(version_from_filename("firmware.bin"), None);
    assert_eq!(version_from_filename("TL60_20250908.bin"), None);
    assert_eq!(version_from_filename("V3.0.bin"), None); // not a triplet
}

#[test]
fn unknown_driver_names_are_rejected_not_silently_treated_as_classic() {
    for good in KNOWN_DRIVERS {
        assert!(TestDriver::parse(good).is_ok(), "{good} must parse");
    }
    for bad in ["classik", "Classic", "", "auto ", "infinity2", "0x78"] {
        assert_eq!(TestDriver::parse(bad), Err(UnknownDriver), "{bad}");
    }
}

#[test]
fn each_driver_emits_its_own_familys_frames() {
    for drv in [TestDriver::Auto, TestDriver::Classic] {
        assert_eq!(drv.power(TEST_MAC, true), classic::power(true));
        assert_eq!(drv.power(TEST_MAC, false), classic::power(false));
        // The four-byte form: the two-byte one is ignored by a fixture running a pixel
        // effect, which is exactly when a baseline is needed.
        assert_eq!(drv.cct(TEST_MAC, 50, 56), classic::cct4(50, 56, 0));
        assert_eq!(drv.hsi(TEST_MAC, 120), classic::hsi(120, 100, 100));
    }
    let inf = TestDriver::Infinity;
    assert_eq!(inf.power(TEST_MAC, true), infinity::power(TEST_MAC, true));
    assert_eq!(inf.cct(TEST_MAC, 50, 56), infinity::cct(TEST_MAC, 50, 56, 0));
    assert_eq!(inf.hsi(TEST_MAC, 120), infinity::hsi(TEST_MAC, 120, 100, 100));
    let home_drv = TestDriver::Home;
    assert_eq!(home_drv.power(TEST_MAC, true), home::power(true));
    // Home brightness is 0..=1000, so the percentage is scaled by 10.
    assert_eq!(home_drv.cct(TEST_MAC, 50, 56), home::cct(500, 56));
    assert_eq!(home_drv.hsi(TEST_MAC, 120), home::hsi(1000, 120, 100));
}

#[test]
fn set_specs_build_the_expected_frames() {
    let plan = build_set_plan(TEST_MAC, "cct:5600:40").unwrap();
    assert_eq!(plan.frames, vec![classic::cct2(40, 56)]);
    assert!(!plan.reset, "a CCT spec is already its own baseline");

    let plan = build_set_plan(TEST_MAC, "hsi:120:100:80").unwrap();
    assert_eq!(plan.frames, vec![classic::hsi(120, 100, 80)]);
    assert!(plan.reset, "non-CCT specs paint a CCT-white baseline first");

    // GM CCT: the 4-byte form by default, 3/5-byte on request.
    assert_eq!(
        build_set_plan(TEST_MAC, "cctgm:5600:-50:40").unwrap().frames,
        vec![classic::cct4(40, 56, -50)]
    );
    assert_eq!(
        build_set_plan(TEST_MAC, "cctgm:5600:10:40:5").unwrap().frames,
        vec![classic::cct_gm5(40, 56, 10)]
    );

    // MAC and direct forms stay distinct.
    assert_eq!(
        build_set_plan(TEST_MAC, "xy:3127:3290:80").unwrap().frames,
        vec![classic::xy_mac(TEST_MAC, 80, 3127, 3290)]
    );
    assert_eq!(
        build_set_plan(TEST_MAC, "xydirect:3127:3290:80").unwrap().frames,
        vec![classic::xy(80, 3127, 3290)]
    );
    assert_eq!(
        build_set_plan(TEST_MAC, "rgbcwmac:255:0:0").unwrap().frames,
        vec![classic::rgbcw_mac(TEST_MAC, 100, 255, 0, 0, 0, 0, 0)]
    );

    // `warmdim` is the way out of an effect, so it must use the 4-byte form.
    assert_eq!(
        build_set_plan(TEST_MAC, "warmdim").unwrap().frames,
        vec![classic::cct4(12, 27, 0)],
        "warmdim must send the 4-byte CCT form or it cannot exit pixel/FX mode"
    );
    // ...but `cct:` still probes the 2-byte form on purpose.
    assert_eq!(
        build_set_plan(TEST_MAC, "cct:5600:40").unwrap().frames,
        vec![classic::cct2(40, 56)]
    );

    // `raw` sends the given bytes verbatim, with no baseline frame.
    let plan = build_set_plan(TEST_MAC, "raw:78D00048").unwrap();
    assert_eq!(plan.frames, vec![vec![0x78, 0xD0, 0x00, 0x48]]);
    assert!(!plan.reset);

    // Pixel emits its params frame plus palette frame(s).
    assert_eq!(build_set_plan(TEST_MAC, "pixel:0,240:1:40").unwrap().frames.len(), 2);
}

#[test]
fn set_specs_reject_out_of_range_values() {
    for spec in [
        "cct:5600:300",              // brightness > 100
        "hsi:400:100:80",            // hue > 360
        "hsi:120:200:80",            // saturation > 100
        "xy:9000:3290:80",           // x past the 0.8000 coordinate max
        "fx:99:80",                  // no such effect
        "scene:20:80",               // 9-scene family only has 1..=9
        "rgbcw:300:0:0",             // channel > 255
        "rgbcw:10:10:10:0:0:200",    // bri > 100 (percentage, not a channel)
        "rgbcwmac:10:10:10:0:0:101", // same rule on the by-MAC form
    ] {
        assert!(build_set_plan(TEST_MAC, spec).is_err(), "{spec} should be rejected");
    }

    // Malformed / unknown specs stay errors, and none of them panic.
    for spec in ["", "nope:1", "cct", "cct:5600", "cct:abc:40", "raw:", "raw:78D0004"] {
        assert!(build_set_plan(TEST_MAC, spec).is_err(), "{spec:?} should be rejected");
    }
}

#[test]
fn set_specs_never_send_an_effect_other_than_the_one_reported() {
    for spec in [
        "fx:0:80", // effect ids start at 1
        "fxdirect:0:80",
        "scene:0:80",
        "pixfx:0",
        "pixel:0,240:0:40", // pixel effect id
        "cctgm:5600:99:40", // gm is CLAMPED to ±50 by the encoder
        "cctgm:5600:-99:40",
        "pixel:400,0:1:40", // hue is WRAPPED modulo 360 on the wire
    ] {
        assert!(build_set_plan(TEST_MAC, spec).is_err(), "{spec} should be rejected");
    }

    // The bounds stay inclusive at both ends of every valid range.
    for spec in [
        "fx:1:80",
        "fx:18:80",
        "fxdirect:1:80",
        "fxdirect:18:80",
        "scene:1:80",
        "scene:9:80",
        "pixfx:1",
        "pixfx:10",
        "pixel:0,240:1:40",
        "pixel:0,240:10:40",
        "pixel:360,0:1:40",
        "cctgm:5600:50:40",
        "cctgm:5600:-50:40",
    ] {
        assert!(build_set_plan(TEST_MAC, spec).is_ok(), "{spec} should be accepted");
    }

    // A pixel id that IS in range but does not render must say what actually goes on the
    // wire, not echo what was asked for.
    let plan = build_set_plan(TEST_MAC, "pixel:0,240:2:40").unwrap();
    assert!(plan.desc.contains("eff=2"), "must still name what was asked: {}", plan.desc);
    assert!(plan.desc.contains("ColorReplacement"), "must disclose the fallback: {}", plan.desc);
    assert_eq!(plan.frames[0][9], rendered_effect(2), "wire id must match the desc");
    // A supported id reports itself with no caveat.
    let plan = build_set_plan(TEST_MAC, "pixel:0,240:4:40").unwrap();
    assert!(plan.desc.contains("eff=4") && !plan.desc.contains("ColorReplacement"));
}

#[test]
fn fx_preset_table_matches_the_hand_tuned_values() {
    for (id, cct, gm, hue, sat, speed, extra, val2) in [
        (1u8, 56u8, 0i8, 0u16, 0u8, 5u8, 0u8, 0u16), // Lightning
        (9, 0, 0, 240, 100, 6, 0, 0),                // HUE-pulse (blue)
        (10, 0, 0, 0, 0, 7, 2, 0),                   // Cop-Car
        (11, 32, 0, 0, 0, 4, 0, 0),                  // Candlelight
        (12, 0, 0, 0, 100, 5, 0, 0),                 // HUE-loop
        (3, 56, 0, 0, 100, 5, 0, 0),                 // generic fallback
    ] {
        assert_eq!(
            fx_preset(TEST_MAC, id, 80),
            infinity::fx(TEST_MAC, id, 80, cct, gm, hue, sat, speed, extra, val2),
            "MAC-form FX preset {id} drifted"
        );
        assert_eq!(
            fx_preset_direct(id, 80),
            infinity::fx_direct(id, 80, cct, gm, hue, sat, speed, extra, val2),
            "direct-form FX preset {id} drifted"
        );
    }
}

#[test]
fn fx_presets_carry_the_same_payload_in_both_frame_forms() {
    for id in 1..=18u8 {
        let m = fx_preset(TEST_MAC, id, 80);
        let d = fx_preset_direct(id, 80);
        assert_eq!(
            &m[10..m.len() - 1],
            &d[3..d.len() - 1],
            "FX preset {id} differs between the MAC and direct frame forms"
        );
    }
}

#[test]
fn set_errors_say_what_is_wrong() {
    let err = |spec: &str| read_set(spec).unwrap_err();
    assert_eq!(err("cct"), SetError::Missing(Arg::Kelvin));
    assert_eq!(err("cct:5600"), SetError::Missing(Arg::Bri));
    assert_eq!(err("cct:abc:40"), SetError::NotANumber(Arg::Kelvin));
    assert_eq!(err("cct:4294967296:40"), SetError::NotANumber(Arg::Kelvin));
    assert_eq!(
        err("fx:0:80"),
        SetError::OutOfRange { what: Arg::Id, lowest: 1, highest: 18, got: 0 }
    );
    // The first wrong value decides.
    assert_eq!(
        err("hsi:400:x:y"),
        SetError::OutOfRange { what: Arg::Hue, lowest: 0, highest: 360, got: 400 }
    );
    assert_eq!(err("cctgm:5600"), SetError::Missing(Arg::Bri));
    assert_eq!(err("cctgm:5600:200:40"), SetError::NotANumber(Arg::Gm));
    assert_eq!(err("cctgm:5600:-51:40"), SetError::GmOutOfRange { gm: -51 });
    assert_eq!(err("pixel"), SetError::Missing(Arg::Hues));
    assert_eq!(err("pixel:1,x:1:40"), SetError::NotANumber(Arg::Hue));
    assert_eq!(err("rgbcw:1:2:3:256"), SetError::NotANumber(Arg::CoolWhite));
    assert_eq!(err("raw:0"), SetError::BadRaw);
    assert_eq!(err("CCT:5600:40"), SetError::UnknownKind);
}

#[test]
fn set_specs_are_reported_as_they_are_sent() {
    let desc = |spec: &str| build_set_plan(TEST_MAC, spec).unwrap().desc;
    assert_eq!(desc("warmdim"), "dim warm white 2700K @ 12%");
    assert_eq!(desc("cct:5600:40"), "CCT 5600K @ 40%");
    assert_eq!(desc("cctgm:5600:10:40:3"), "CCT3 5600K gm+10 @ 40%");
    assert_eq!(desc("cctgm:5600:-7:40"), "CCT4 5600K gm-7 @ 40%");
    assert_eq!(desc("hsi:120:100:80"), "HSI hue=120 sat=100 @ 80%");
    assert_eq!(desc("xy:1:2:3"), "XY by-MAC 0xB7 x=1 y=2 @ 3%");
    assert_eq!(desc("xydirect:1:2:3"), "XY direct 0xB9 x=1 y=2 @ 3%");
    assert_eq!(desc("fx:9:80"), "FX #9 @ 80%");
    assert_eq!(desc("fxdirect:9:80"), "FX direct 0x8B #9 @ 80%");
    assert_eq!(desc("scene:3:80"), "SCENE 0x88 #3 @ 80%");
    assert_eq!(desc("pixel:0, 240:4:40"), "PIXEL 2 seg eff=4 speed=40");
    assert_eq!(
        desc("pixel:0:2:40"),
        "PIXEL 1 seg eff=2 → not supported over direct BLE, sending 1 (ColorReplacement) speed=40"
    );
    assert_eq!(desc("pixfx:7"), "PIXEL effect 7 (Fire)");
    assert_eq!(
        desc("rgbcw:1:2:3:4:5:6"),
        "RGBCW direct 0xA8 (ignored on TL120C — should stay white): R=1 G=2 B=3 CW=4 WW=5 @ 6%"
    );
    assert_eq!(desc("raw:78:d0 00:48"), "raw frame [78 D0 00 48]");
}

#[test]
fn set_specs_read_their_values() {
    assert!(matches!(
        read_set("cctgm:5600:+10:40:3"),
        Ok(SetSpec::CctGm { kelvin: 5600, gm: 10, bri: 40, form: 3 })
    ));
    assert!(matches!(
        read_set("rgbcw:1:2:3"),
        Ok(SetSpec::Rgbcw { by_mac: false, r: 1, g: 2, b: 3, cw: 0, ww: 0, bri: 100 })
    ));
    // A pixel effect's probe: params, then palette, under one wire id.
    let plan = build_set_plan(TEST_MAC, "pixfx:8").unwrap();
    assert_eq!(plan.frames.len(), 2);
    assert_eq!(plan.frames[0][9..], [10, 0, 50, 2, 40, 1, 0, 1, plan.frames[0][17]]);
    assert_eq!(plan.frames[1][9..11], [10, 1]);
}

#[test]
fn a_plan_is_sent_four_times_with_its_baseline() {
    let plan = build_set_plan(TEST_MAC, "hsi:120:100:80").unwrap();
    let steps = test_set(&plan);
    assert_eq!(steps.len(), 5);
    assert_eq!(steps[0].frame, classic::cct4(50, 56, 0));
    assert_eq!(steps[0].pause_ms, 900);
    let pauses: Vec<u64> = steps[1..].iter().map(|s| s.pause_ms).collect();
    assert_eq!(pauses, vec![1080, 1080, 1080, 80]);
    assert!(steps[1..].iter().all(|s| s.chunked && s.frame == plan.frames[0]));
    let plain = build_set_plan(TEST_MAC, "warmdim").unwrap();
    assert_eq!(test_set(&plain).len(), 4);
}

#[test]
fn probes_end_on_a_dim_warm_white() {
    let drv = TestDriver::Infinity;
    let white = drv.cct(TEST_MAC, 12, 27);
    let colors = probe_colors(drv, TEST_MAC);
    assert_eq!(colors[0].frame, drv.hsi(TEST_MAC, 0));
    assert_eq!(colors[1].frame, drv.hsi(TEST_MAC, 120));
    assert_eq!(colors[2].frame, drv.hsi(TEST_MAC, 240));
    assert_eq!(colors.last().unwrap().frame, white);
    let modes = probe_modes(drv, TEST_MAC);
    assert_eq!(modes.len(), 9);
    assert_eq!(modes[0].frame, classic::xy_mac(TEST_MAC, 100, 3127, 3290));
    assert_eq!(modes[4].frame, infinity::fx(TEST_MAC, 9, 100, 0, 0, 240, 100, 6, 0, 0));
    assert_eq!(modes[6].frame, drv.power(TEST_MAC, false));
    assert_eq!(modes.last().unwrap().frame, white);
    let pixel = probe_pixel(drv, TEST_MAC);
    assert_eq!(pixel[0].frame, drv.cct(TEST_MAC, 50, 56));
    let bands = [0, 120, 240, 55].map(|hue| Block::Hsi { hue, sat: 100 });
    let frames = paint(TEST_MAC, &bands, 100, 1, 40, 1);
    assert_eq!(pixel[1].frame, frames[0]);
    assert_eq!(pixel[1].pause_ms, 80);
    assert_eq!(pixel[2].frame, frames[1]);
    assert_eq!(pixel[2].pause_ms, 2880);
    assert!(pixel[pixel.len() - 3..].iter().all(|s| s.frame == classic::cct4(12, 27, 0)));
}

#[test]
fn a_test_run_blinks_sets_white_and_probes_in_order() {
    let drv = TestDriver::Classic;
    let none = TestProbes::default();
    let base = probe::test(drv, TEST_MAC, none);
    assert_eq!(base.len(), 7);
    assert_eq!(base[0].frame, classic::power(false));
    assert_eq!(base[5].frame, classic::power(true));
    assert_eq!(base[6].frame, classic::cct4(50, 56, 0));
    let all = TestProbes { colors: true, modes: true, pixel: true, status: false };
    let full = probe::test(drv, TEST_MAC, all);
    let parts = probe_colors(drv, TEST_MAC).len()
        + probe_modes(drv, TEST_MAC).len()
        + probe_pixel(drv, TEST_MAC).len();
    assert_eq!(full.len(), 7 + parts);
    assert_eq!(full[7].frame, drv.hsi(TEST_MAC, 0));
    let blinks = blink(&[1], &[2, 3]);
    assert_eq!(blinks.len(), 6);
    assert_eq!(blinks[4].frame, vec![1]);
    assert_eq!(blinks[5].frame, vec![2, 3]);
    assert_eq!(blinks[5].pause_ms, 450);
    let status = test_status(TEST_MAC);
    assert_eq!(status[0].frame, queries::version(TEST_MAC));
    assert_eq!(status[3].frame, queries::state(TEST_MAC));
    assert!(hint_about_auto(TestDriver::Auto, false, false));
    assert!(!hint_about_auto(TestDriver::Auto, true, false));
    assert!(!hint_about_auto(TestDriver::Auto, false, true));
    assert!(!hint_about_auto(TestDriver::Classic, false, false));
}

#[test]
fn images_are_checked_before_anything_is_sent() {
    let mut image = vec![0u8; 2000];
    assert_eq!(check_image(&image[..1023]), Err(ImageError::TooShort { len: 1023 }));
    assert_eq!(check_image(&image), Err(ImageError::NotArm { sp: 0 }));
    image[..4].copy_from_slice(&[0x10, 0x20, 0x00, 0x20]);
    assert_eq!(check_image(&image), Ok(0x2000_2010));
    image[2] = 0x08;
    assert_eq!(check_image(&image), Err(ImageError::NotArm { sp: 0x2008_2010 }));
    assert_eq!(flash_gate(true, true), FlashGate::CheckOnly);
    assert_eq!(flash_gate(false, false), FlashGate::Unconfirmed);
    assert_eq!(flash_gate(false, true), FlashGate::Flash);
}

#[test]
fn a_link_is_checked_at_least_once() {
    let (mut check, first) = LinkCheck::new(0);
    assert_eq!(first, LinkAction::Check);
    assert_eq!(check.step(LinkEvent::Connected(true)), LinkAction::Poke);
    assert_eq!(check.step(LinkEvent::Poked { elapsed: 0 }), LinkAction::Held { checks: 1 });
    let (mut check, _) = LinkCheck::new(10);
    assert_eq!(check.step(LinkEvent::Connected(true)), LinkAction::Poke);
    assert_eq!(check.step(LinkEvent::Poked { elapsed: 9 }), LinkAction::Rest);
    assert_eq!(check.step(LinkEvent::Rested), LinkAction::Check);
    assert_eq!(check.step(LinkEvent::Connected(false)), LinkAction::Dropped);
}

#[test]
fn the_block_size_is_probed_until_the_light_answers() {
    let answer = [0x78, 0x1A, 0x02, 0x01, 0x95];
    assert_eq!(probe_step(Some(&answer), 0), ProbeStep::Answered(BlockKind::Pro4096));
    assert_eq!(probe_step(Some(&[1, 2]), 0), ProbeStep::Listen);
    assert_eq!(probe_step(Some(&[1, 2]), 3_000_000_000), ProbeStep::Silent);
    assert_eq!(probe_step(None, 0), ProbeStep::Silent);
    assert_eq!(ProbeStep::Silent.kind(), Some(BlockKind::Std128));
    assert_eq!(ProbeStep::Listen.kind(), None);
}

fn ack(op: u8) -> [u8; 5] {
    [0x78, 0x06, 0x01, op, 0]
}

fn transfer(len: usize) -> (Transfer, Vec<u8>, Vec<u8>) {
    let image: Vec<u8> = (0..len).map(|i| (i % 251) as u8).collect();
    let header = Header::for_image(&image, [3, 0, 5], "x");
    let (t, first) = Transfer::new(image.clone(), BlockKind::Std128, header);
    (t, image, first)
}

fn sent(action: Action) -> Vec<u8> {
    match action {
        Action::Send { frame, .. } => frame,
        other => panic!("expected a frame, got {other:?}"),
    }
}

#[test]
fn acknowledgements_pull_the_image_block_by_block() {
    let (mut t, image, first) = transfer(300);
    assert_eq!(first[1], 0x96);
    let mut received = Vec::new();
    for n in 0..3 {
        let frame = sent(t.step(Some(&ack(0))));
        let data = &image[n * 128..(n * 128 + 128).min(300)];
        assert_eq!(frame, block_frame(BlockKind::Std128, data, HEADER_STD));
        received.extend_from_slice(data);
    }
    assert_eq!(received, image);
    assert!(matches!(t.step(Some(&ack(0))), Action::Wait));
    assert!(matches!(t.step(Some(&ack(3))), Action::Finish));
}

#[test]
fn a_resend_repeats_and_a_restart_begins_again() {
    let (mut t, image, _) = transfer(300);
    let _ = t.step(Some(&ack(0)));
    let second = sent(t.step(Some(&ack(0))));
    assert_eq!(sent(t.step(Some(&ack(1)))), second);
    assert_eq!(
        sent(t.step(Some(&ack(2)))),
        block_frame(BlockKind::Std128, &image[..128], HEADER_STD)
    );
    assert_eq!(sent(t.step(Some(&ack(0)))), second);
    assert!(matches!(t.step(Some(&[9, 9])), Action::Ignore));
    assert!(matches!(t.step(Some(&ack(9))), Action::Wait));
    assert!(matches!(t.step(Some(&ack(4))), Action::Abort(Abort::Rejected)));
    assert!(matches!(t.step(None), Action::Abort(Abort::Silent)));
}

#[test]
fn a_header_is_sent_five_times_at_most() {
    let (mut t, _, first) = transfer(300);
    for _ in 0..4 {
        assert_eq!(sent(t.step(None)), first);
    }
    assert!(matches!(t.step(None), Action::Abort(Abort::HeaderIgnored)));
    let (mut t, _, first) = transfer(300);
    for _ in 0..4 {
        assert_eq!(sent(t.step(Some(&ack(1)))), first);
    }
    assert!(matches!(t.step(Some(&ack(1))), Action::Abort(Abort::HeaderRejected)));
}

#[test]
fn progress_is_reported_every_two_percent() {
    let (mut t, _, _) = transfer(12_800);
    let report = |t: &mut Transfer| match t.step(Some(&ack(0))) {
        Action::Send { report, .. } => report,
        other => panic!("expected a frame, got {other:?}"),
    };
    assert_eq!(report(&mut t), Some((0, 1)));
    assert_eq!(report(&mut t), None);
    assert_eq!(report(&mut t), Some((2, 3)));
    let _ = t.step(Some(&ack(2)));
    assert_eq!(report(&mut t), Some((1, 2)));
}

#[test]
fn a_typed_line_picks_a_light() {
    assert_eq!(select(" 2 \n", 3), Selection::Light(1));
    assert_eq!(select("", 3), Selection::Cancel);
    assert_eq!(select("Q", 3), Selection::Cancel);
    assert_eq!(select("0", 3), Selection::Invalid);
    assert_eq!(select("4", 3), Selection::Invalid);
    assert_eq!(select("two", 3), Selection::Invalid);
    assert_eq!(answer("  \n", "auto"), "auto");
    assert_eq!(answer(" home\n", "auto"), "home");
    assert!(declined("N\n"));
    assert!(!declined("\n"));
    assert_eq!(number_or("\n", 1), Some(1));
    assert_eq!(number_or("300\n", 1), Some(300));
    assert_eq!(number_or("65536", 1), None);
    assert_eq!(number_or("x", 1), None);
}

fn model() -> Model {
    Model {
        name: "TL120C".into(),
        product_ids: vec!["20240047".into(), "20230031".into()],
        name_matches: vec![],
        driver: "classic".into(),
        supports_rgb: true,
        supports_gm: true,
        cct_min: 25,
        cct_max: 100,
        cmd_type: 1,
        supports_rgbcw: true,
        supports_xy: true,
        supports_dmx: false,
        supports_fx: true,
        pixel_classify: 1,
    }
}

fn flags() -> AddFlags {
    AddFlags {
        driver: None,
        profile: None,
        universe: 3,
        address: 7,
        name: None,
        cct_min: None,
        cct_max: None,
    }
}

#[test]
fn an_entry_takes_flags_over_the_model_over_defaults() {
    let m = model();
    let l = add_noninteractive("aa-bb-cc-dd-ee-ff", &flags(), Some(&m), "NW-x").unwrap();
    assert_eq!(l.mac, "AA:BB:CC:DD:EE:FF");
    assert_eq!(l.name.as_deref(), Some("TL120C"));
    assert_eq!((l.driver.as_str(), l.profile.as_str()), ("classic", "advanced"));
    assert_eq!((l.universe, l.address), (3, 7));
    assert_eq!((l.cct_min, l.cct_max, l.cmd_type), (25, 100, 1));
    assert!(l.power_on_connect);

    let f = AddFlags {
        driver: Some("home".into()),
        profile: Some("rgb".into()),
        name: Some("Key".into()),
        cct_min: Some(30),
        cct_max: Some(60),
        ..flags()
    };
    let l = add_noninteractive("aa-bb-cc-dd-ee-ff", &f, Some(&m), "NW-x").unwrap();
    assert_eq!((l.driver.as_str(), l.profile.as_str()), ("home", "rgb"));
    assert_eq!(l.name.as_deref(), Some("Key"));
    assert_eq!((l.cct_min, l.cct_max), (30, 60));

    let f = AddFlags { profile: Some("cct".into()), ..flags() };
    let l = add_noninteractive("aa-bb-cc-dd-ee-ff", &f, None, "").unwrap();
    assert_eq!(l.driver, "auto");
    assert_eq!(l.name, None);
    assert_eq!((l.cct_min, l.cct_max, l.cmd_type), (DEFAULT_CCT_MIN, DEFAULT_CCT_MAX, 2));
    let l = add_noninteractive("aa-bb-cc-dd-ee-ff", &f, None, "NW-x").unwrap();
    assert_eq!(l.name.as_deref(), Some("NW-x"));
}

#[test]
fn an_entry_needs_a_known_driver_and_profile() {
    let f = AddFlags { driver: Some("classik".into()), ..flags() };
    let mac = "aabbccddeeff";
    assert_eq!(add_noninteractive(mac, &f, None, "").unwrap_err(), AddError::UnknownDriver);
    assert_eq!(add_noninteractive(mac, &flags(), None, "").unwrap_err(), AddError::NoProfile);
    // What is no MAC is refused before anything else.
    let bad = AddError::BadMac(MacError { digits: 3 });
    assert_eq!(add_noninteractive("x-abc", &f, None, "").unwrap_err(), bad);
    let f = AddFlags { profile: Some("nope".into()), ..flags() };
    assert_eq!(add_noninteractive(mac, &f, None, "").unwrap_err(), AddError::UnknownProfile);
}

#[test]
fn a_picked_light_is_proposed_what_its_model_can_do() {
    let m = model();
    let p = propose(Some(&m), "NW-x", "AA");
    assert_eq!((p.driver.as_str(), p.profile.as_str()), ("classic", "advanced"));
    assert_eq!((p.name.as_str(), p.cct_min, p.cct_max, p.cmd_type), ("TL120C", 25, 100, 1));
    let p = propose(None, "", "AA:BB:CC:DD:EE:FF");
    assert_eq!((p.driver.as_str(), p.profile.as_str()), ("auto", "full"));
    assert_eq!(p.name, "AA:BB:CC:DD:EE:FF");
    let l = add("aabbccddeeff", "auto", "rgb", 0, 1, "Key", &p).unwrap();
    assert_eq!(l.mac, "AA:BB:CC:DD:EE:FF");
    assert_eq!(l.name.as_deref(), Some("Key"));
    assert_eq!(l.cmd_type, 2);
    assert_eq!(add("aa", "x", "rgb", 0, 1, "", &p).unwrap_err(), AddError::UnknownDriver);
    let bad = AddError::BadMac(MacError { digits: 2 });
    assert_eq!(add("aa", "auto", "x", 0, 1, "", &p).unwrap_err(), bad);
    let r = add("aabbccddeeff", "auto", "x", 0, 1, "", &p);
    assert_eq!(r.unwrap_err(), AddError::UnknownProfile);
}

fn found(name: &str, address: &str, rssi: Option<i16>, is_neewer: bool) -> Found {
    Found { name: name.into(), address: address.into(), rssi, is_neewer, peripheral: 0 }
}

fn light(mac: &str) -> LightCfg {
    LightCfg {
        mac: mac.into(),
        name: None,
        driver: "auto".into(),
        profile: "rgb".into(),
        universe: 291,
        address: 26,
        power_on_connect: true,
        cct_min: 32,
        cct_max: 56,
        cmd_type: 2,
    }
}

#[test]
fn a_scan_hides_what_is_configured() {
    let list = [
        found("NW-a", "AA:BB:CC:DD:EE:01", Some(-40), true),
        found("phone", "AA:BB:CC:DD:EE:02", Some(-50), false),
        found("NW-b", "AA:BB:CC:DD:EE:03", None, true),
    ];
    let lights = [light("aa-bb-cc-dd-ee-03")];
    assert!(is_configured(&lights, "AA:BB:CC:DD:EE:03"));
    assert!(!is_configured(&lights, "AA:BB:CC:DD:EE:01"));
    assert_eq!(scan(&list, &lights, false), (vec![0], 1));
    assert_eq!(scan(&list, &lights, true), (vec![0, 1, 2], 0));
    assert_eq!(
        scan_json(&list, &lights, &[0, 2]),
        "[{\"name\":\"NW-a\",\"mac\":\"AA:BB:CC:DD:EE:01\",\"rssi\":-40,\"neewer\":true,\
         \"configured\":false},{\"name\":\"NW-b\",\"mac\":\"AA:BB:CC:DD:EE:03\",\"rssi\":null,\
         \"neewer\":true,\"configured\":true}]"
    );
    assert_eq!(scan_json(&list, &lights, &[]), "[]");
    for (i, f) in list.iter().enumerate() {
        let rssi = f.rssi.map(|r| format!("{r}")).unwrap_or_else(|| "  ?".into());
        let kind = ["Neewer", "other", "Neewer (configured)"][i];
        assert_eq!(
            scan_row(i + 1, f, is_configured(&lights, &f.address)),
            format!("  {:<3} {:<22} {:<18} {:>4}  {}", i + 1, f.name, f.address, rssi, kind)
        );
    }
    assert!(scan_row(1, &found("", "x", None, false), false).contains("(no name)"));
}

#[test]
fn json_strings_cannot_be_broken_out_of() {
    assert_eq!(json_escape("a\"b\\c\n\u{7f}d"), "a\\\"b\\\\c \u{7f}d");
}

#[test]
fn models_and_lights_are_printed_in_columns() {
    let m = model();
    assert_eq!(
        model_row(&m),
        format!(
            "  {:<14} {:<8} {:<4} {:<3} {:<11} {:<14} {}",
            "TL120C", "advanced", "yes", "yes", "2500-10000", "20240047,20230031", "RGBCW,XY,Pixel"
        )
    );
    let plain = Model {
        product_ids: vec![],
        name_matches: vec!["SNL660".into(), "X".into()],
        supports_rgb: false,
        supports_gm: false,
        supports_rgbcw: false,
        supports_xy: false,
        supports_dmx: true,
        pixel_classify: 0,
        ..model()
    };
    assert_eq!(
        model_row(&plain),
        format!(
            "  {:<14} {:<8} {:<4} {:<3} {:<11} {:<14} {}",
            "TL120C", "cct", "—", "—", "2500-10000", "SNL660", "DMX"
        )
    );
    assert_eq!(
        light_lines(1, &light("AA:BB:CC:DD:EE:FF")),
        vec![
            "  [1] (unnamed)  (AA:BB:CC:DD:EE:FF)",
            "      driver auto · profile rgb · CCT 3200-5600K · power-on-connect true",
            "      universe 291 (Net 1 / Sub-Net 2 / Universe 3) · DMX channels 26-28",
            "        U291 ch26  → Red",
            "        U291 ch27  → Green",
            "        U291 ch28  → Blue",
        ]
    );
    assert_eq!(ascii(&[0x41, 0x00, 0x7e, 0x7f]), "A.~.");
}

#[test]
fn the_header_is_not_sent_again_after_a_block() {
    let (mut t, _, first) = transfer(300);
    assert_eq!(sent(t.step(Some(&ack(1)))), first);
    assert_eq!(sent(t.step(Some(&ack(0))))[1], 0x97);
    for _ in 0..9 {
        assert_eq!(sent(t.step(Some(&ack(1))))[1], 0x97);
    }
    assert!(matches!(t.step(None), Action::Abort(Abort::Silent)));
}
