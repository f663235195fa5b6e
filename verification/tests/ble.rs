use btleplug::api::BDAddr;
use neewer_bridge::ble::gatt::{
    find_readable_char, gatt_uuids, hexstr, write_command, write_command_chunked, write_ota_frame,
    CharProps, NeewerChars, NotNeewer, WriteMode, CHUNK_SETTLE, MAX_ATT_WRITE,
};
use neewer_bridge::ble::health::{
    classify_disconnect, is_bus_poisoned, note_error, note_ok, reset_stack_health, stack_verdict,
    verdict, DisconnectOutcome, StackHealth, StackVerdict, STACK_DEAD_AFTER, UNSET,
};
use neewer_bridge::ble::{
    adapter_id_from_info, addr_matches, find_by_mac, find_scanned, is_neewer_lowered,
    is_neewer_name, scan, select_adapter, select_lowered, AdapterChoice, Advert, FindStep,
    NoAdapter,
};
use neewer_bridge::config::parse_mac;
use neewer_bridge::protocol::uuids;

/// The UUIDs are constants: prove here that they are well-formed, rather than when a
/// light is connected.
#[test]
fn gatt_uuids_parse_and_are_distinct() {
    let ids = gatt_uuids();
    assert_eq!(uuid::Uuid::from_u128(ids.write).to_string(), uuids::WRITE_CHAR);
    assert_eq!(uuid::Uuid::from_u128(ids.notify).to_string(), uuids::NOTIFY_CHAR);
    assert_eq!(uuid::Uuid::from_u128(ids.service).to_string(), uuids::SERVICE);
    assert_ne!(ids.write, ids.notify);
    assert_ne!(ids.write, ids.service);
}

#[test]
fn addr_matching_compares_every_byte() {
    let target = [0xD6, 0x50, 0xF2, 0xF6, 0xBB, 0x1B];
    assert!(addr_matches(BDAddr::from(target).into_inner(), target));
    // A difference in ANY byte must fail: a near-miss MAC binding a light to the wrong
    // fixture is the one thing this must never do.
    for i in 0..6 {
        let mut other = target;
        other[i] ^= 0xFF;
        assert!(!addr_matches(BDAddr::from(other).into_inner(), target), "byte {i} ignored");
    }
    // Separators and case are up to `parse_mac`; the platform hands over bytes. Pin that
    // the two agree.
    for written in ["D6:50:F2:F6:BB:1B", "d6-50-f2-f6-bb-1b", "D650F2F6BB1B"] {
        assert!(
            addr_matches(BDAddr::from(target).into_inner(), parse_mac(written).unwrap()),
            "{written}"
        );
    }
}

#[test]
fn neewer_name_heuristic() {
    for n in ["NW-20240047&00000000", "NEEWER-TL21C", "nwr-something", "NH-PD20250030", "SL90 Pro"] {
        assert!(is_neewer_name(n), "{n} should match");
    }
    for n in ["LHB-B35DA7F3", "", "iPhone"] {
        assert!(!is_neewer_name(n), "{n} should not match");
    }
}

#[test]
fn hexstr_formats_frames_for_logs() {
    assert_eq!(hexstr(&[0x78, 0x81, 0x01, 0x01, 0xFB]), "78 81 01 01 fb");
    assert_eq!(hexstr(&[]), "");
}

#[test]
fn adapter_id_is_the_first_token_of_the_info_string() {
    assert_eq!(adapter_id_from_info("hci0 (usb:v1D6Bp0246d0552)"), "hci0");
    assert_eq!(adapter_id_from_info("hci1"), "hci1");
    assert_eq!(adapter_id_from_info("  hci2  (x)"), "hci2");
    assert_eq!(adapter_id_from_info(""), "");
}

#[test]
fn disconnect_outcomes_are_classified_by_completion_not_success() {
    assert!(matches!(
        classify_disconnect::<anyhow::Error>(Some(Ok(()))),
        DisconnectOutcome::Done
    ));
    assert!(matches!(
        classify_disconnect(Some(Err(anyhow::Error::msg("x")))),
        DisconnectOutcome::Failed(_)
    ));
    // The timeout is the one outcome that must never be retried blindly.
    assert!(matches!(classify_disconnect::<anyhow::Error>(None), DisconnectOutcome::Hung));
    let e = anyhow::Error::msg("d-bus");
    assert!(matches!(classify_disconnect(Some(Err(e))), DisconnectOutcome::Failed(_)));
}

fn chain(e: &anyhow::Error) -> Vec<String> {
    e.chain().map(|cause| cause.to_string()).collect()
}

#[test]
fn bus_poisoning_is_recognised_anywhere_in_the_chain() {
    // The text of the bus daemon, wrapped in the listing context.
    let inner = anyhow::Error::msg(
        "The maximum number of pending replies per connection has been reached",
    );
    let wrapped = inner.context("listing peripherals");
    assert!(is_bus_poisoned(&chain(&wrapped)));
    // The error NAME alone is enough too.
    assert!(is_bus_poisoned(&chain(&anyhow::Error::msg(
        "org.freedesktop.DBus.Error.LimitsExceeded"
    ))));
    // Ordinary failures are not poisoning: an absent adapter or a dead daemon heal on
    // their own and must not force a new session.
    for other in [
        "listing peripherals: Unit dbus-org.bluez.service failed to load properly",
        "start_scan failed: Operation already in progress",
        "connect failed: le-connection-abort-by-local",
    ] {
        assert!(!is_bus_poisoned(&chain(&anyhow::Error::msg(other))), "{other}");
    }
}

#[test]
fn stack_verdict_needs_a_long_unbroken_failure_run() {
    let dead = STACK_DEAD_AFTER;
    let healthy = StackVerdict::Healthy;
    // Nothing observed yet, or a success with no failure since: healthy.
    assert_eq!(verdict(0, UNSET, UNSET, false, dead), healthy);
    assert_eq!(verdict(10_000, 9_000, UNSET, false, dead), healthy);
    // A failure run shorter than the limit is healthy.
    assert_eq!(verdict(60_000, 1_000, 5_000, false, dead), healthy);
    // Exactly the limit, with the last success outside the window: dead.
    let t = 5_000 + (dead / 1_000_000) as u64;
    assert_eq!(verdict(t, 1_000, 5_000, false, dead), StackVerdict::Dead { failing_for: dead });
    // ...and dead with no success EVER.
    assert_eq!(verdict(t, UNSET, 5_000, false, dead), StackVerdict::Dead { failing_for: dead });
    // A success inside the window keeps it alive.
    assert_eq!(verdict(t, t - 1_000, 5_000, false, dead), healthy);
    // The poisoned flag wins outright, streak or not.
    assert_eq!(verdict(0, UNSET, UNSET, true, dead), StackVerdict::Poisoned);
    assert_eq!(verdict(t, t, UNSET, true, dead), StackVerdict::Poisoned);
    // A clock that appears to run backwards saturates.
    assert_eq!(verdict(0, UNSET, 5_000, false, dead), healthy);
}

#[test]
fn the_first_failure_of_a_run_starts_the_clock() {
    let mut h = StackHealth::new();
    let ordinary = vec!["le-connection-abort-by-local".to_string()];
    note_error(&mut h, 1_000, &ordinary);
    note_error(&mut h, 100_000, &ordinary);
    assert_eq!(stack_verdict(&h, 120_999), StackVerdict::Healthy);
    assert_eq!(
        stack_verdict(&h, 121_000),
        StackVerdict::Dead { failing_for: 120_000_000_000 }
    );
    note_ok(&mut h, 121_000);
    assert_eq!(stack_verdict(&h, 500_000), StackVerdict::Healthy);
}

#[test]
fn poison_lasts_until_the_session_is_reset() {
    let mut h = StackHealth::new();
    note_error(&mut h, 5, &["org.freedesktop.DBus.Error.LimitsExceeded".to_string()]);
    note_ok(&mut h, 10);
    assert_eq!(stack_verdict(&h, 20), StackVerdict::Poisoned);
    reset_stack_health(&mut h);
    assert_eq!(stack_verdict(&h, 20), StackVerdict::Healthy);
}

#[test]
fn names_beyond_ascii_are_lowered_too() {
    // The Kelvin sign lowers to a plain `k`, the dotted capital I to two characters:
    // neither may upset the search.
    assert!(is_neewer_name("\u{212A}NEEWER"));
    assert!(!is_neewer_name("\u{0130}phone"));
    // What is handed over in lower case is searched as it stands.
    assert!(is_neewer_lowered("nh-x"));
    assert!(!is_neewer_lowered("NH-X"));
}

fn infos(list: &[&str]) -> Vec<String> {
    list.iter().map(|s| s.to_string()).collect()
}

#[test]
fn adapters_are_selected_by_default_index_or_name() {
    let list = infos(&["hci0 (usb:aa)", "hci1 (USB:Bb)"]);
    let pick = |selector: &str| select_adapter(selector, &list).unwrap();
    assert_eq!(pick("default"), AdapterChoice::Default);
    assert_eq!(pick("1"), AdapterChoice::Index(1));
    assert_eq!(pick("+1"), AdapterChoice::Index(1));
    assert_eq!(pick("2"), AdapterChoice::IndexOutOfRange);
    assert_eq!(pick("usb:BB"), AdapterChoice::Name(1));
    assert_eq!(pick("hci"), AdapterChoice::Name(0));
    assert_eq!(pick("nope"), AdapterChoice::NoMatch);
    // A number too large for an index is looked for as a text.
    assert_eq!(pick("99999999999999999999999"), AdapterChoice::NoMatch);
    assert_eq!(pick("1").index(), 1);
    assert_eq!(pick("usb:BB").index(), 1);
    assert_eq!(pick("nope").index(), 0);
    assert_eq!(select_adapter("default", &[]), Err(NoAdapter));
    assert_eq!(
        select_lowered("X", "x", &infos(&["an x here"])),
        Ok(AdapterChoice::Name(0))
    );
}

fn advert(name: &str, address: &str, rssi: Option<i16>, services: Vec<u128>) -> Advert {
    Advert { name: name.into(), address: address.into(), rssi, services }
}

#[test]
fn a_scan_lists_the_strongest_first_and_keeps_ties_in_order() {
    let list = scan(&[
        advert("a", "1", Some(-70), vec![]),
        advert("b", "2", None, vec![]),
        advert("NEEWER-X", "3", Some(-40), vec![]),
        advert("c", "4", Some(-70), vec![gatt_uuids().service]),
        advert("d", "5", None, vec![1, 2]),
    ]);
    let order: Vec<usize> = list.iter().map(|f| f.peripheral).collect();
    assert_eq!(order, vec![2, 0, 3, 1, 4]);
    let neewer: Vec<bool> = list.iter().map(|f| f.is_neewer).collect();
    assert_eq!(neewer, vec![true, false, true, false, false]);
    assert_eq!(list[2].name, "c");
    assert_eq!(list[2].address, "4");
    assert_eq!(list[2].rssi, Some(-70));
    assert!(scan(&[]).is_empty());
}

#[test]
fn a_search_looks_until_its_time_is_over() {
    let target = [1, 2, 3, 4, 5, 6];
    let other = [9, 2, 3, 4, 5, 6];
    assert_eq!(find_scanned(&[other, target, target], target), Some(1));
    assert_eq!(find_scanned(&[other], target), None);
    assert_eq!(find_by_mac(&[other], target, 5, 10), FindStep::Wait);
    assert_eq!(find_by_mac(&[other], target, 10, 10), FindStep::GiveUp);
    assert_eq!(find_by_mac(&[other, target], target, 10, 10), FindStep::Found(1));
}

fn props(uuid: u128) -> CharProps {
    CharProps { uuid, read: false, write: false, write_without_response: false }
}

#[test]
fn the_write_characteristic_makes_a_neewer_light() {
    let ids = gatt_uuids();
    let chars = [props(7), props(ids.notify), props(ids.write), props(ids.write)];
    let found = NeewerChars::locate(&chars).unwrap();
    assert_eq!(found.write, 2);
    assert_eq!(found.notify, Some(1));
    assert_eq!(NeewerChars::locate(&[props(ids.write)]).unwrap().notify, None);
    assert_eq!(NeewerChars::locate(&[props(ids.notify)]), Err(NotNeewer));
    assert_eq!(find_readable_char(&chars), None);
    let readable = CharProps { read: true, ..props(3) };
    assert_eq!(find_readable_char(&[props(1), readable]), Some(1));
}

#[test]
fn long_frames_go_out_in_pieces_that_rebuild_them() {
    let fast = CharProps { write: true, write_without_response: true, ..props(1) };
    let slow = CharProps { write: true, ..props(1) };
    let frame: Vec<u8> = (0..45).collect();
    let plan = write_command_chunked(fast, &frame);
    assert_eq!(plan.mode, WriteMode::WithoutResponse);
    let lens: Vec<usize> = plan.fragments.iter().map(|f| f.bytes.len()).collect();
    assert_eq!(lens, vec![20, 20, 5]);
    let pauses: Vec<u128> = plan.fragments.iter().map(|f| f.pause).collect();
    assert_eq!(pauses, vec![CHUNK_SETTLE, CHUNK_SETTLE, 0]);
    let all: Vec<u8> = plan.fragments.iter().flat_map(|f| f.bytes.clone()).collect();
    assert_eq!(all, frame);

    // A short frame is one write, and so is an empty one.
    let plan = write_command_chunked(slow, &frame[..MAX_ATT_WRITE]);
    assert_eq!(plan.mode, WriteMode::WithResponse);
    assert_eq!(plan.fragments.len(), 1);
    assert_eq!(write_command_chunked(slow, &[]).fragments.len(), 1);
    assert_eq!(write_command(slow, &frame).fragments[0].bytes, frame);

    // Firmware goes with a response where it can, pausing after every piece.
    let plan = write_ota_frame(fast, &frame, 7);
    assert_eq!(plan.mode, WriteMode::WithResponse);
    let pauses: Vec<u128> = plan.fragments.iter().map(|f| f.pause).collect();
    assert_eq!(pauses, vec![7, 7, 7]);
    assert!(write_ota_frame(fast, &[], 7).fragments.is_empty());
    let only_fast = CharProps { write_without_response: true, ..props(1) };
    assert_eq!(write_ota_frame(only_fast, &frame, 7).mode, WriteMode::WithoutResponse);
}
