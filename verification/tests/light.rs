use neewer_bridge::driver::Driver;
use neewer_bridge::light::{
    backoff_ms, flush_ms, label, power_command, resolve_name, same_state, status_queries, Probe,
    Session, StatusCache,
};
use neewer_bridge::profile::{map_dmx, CctRange, Profile};
use neewer_bridge::protocol::{classic, queries, LightState};

const MAC: [u8; 6] = [0xD6, 0x50, 0xF2, 0xF6, 0xBB, 0x1B];

fn state(power: bool, seed: bool) -> LightState {
    LightState { power, seed, ..LightState::default() }
}

#[test]
fn power_on_is_sent_on_first_flush_and_transitions_only() {
    // First flush of a power_on_connect = true seed (or any on state).
    assert_eq!(power_command(None, &state(true, false)), Some(true));
    // Unchanged on: nothing.
    assert_eq!(power_command(Some(true), &state(true, false)), None);
    // Off to on (DMX resuming after a poweroff failsafe).
    assert_eq!(power_command(Some(false), &state(true, false)), Some(true));
}

#[test]
fn passive_seed_off_sends_nothing() {
    // power_on_connect = false: the baseline before any ArtNet must not touch the light's
    // power.
    assert_eq!(power_command(None, &state(false, true)), None);
    // ...and stays silent however often the seed state is looked at again.
    assert_eq!(power_command(Some(false), &state(false, true)), None);
}

#[test]
fn active_off_is_sent_even_on_first_flush() {
    // The poweroff failsafe fired while this light was disconnected: on reconnect the off
    // frame must go out.
    assert_eq!(power_command(None, &state(false, false)), Some(false));
    // On to off (failsafe firing mid-session).
    assert_eq!(power_command(Some(true), &state(false, false)), Some(false));
    // Already sent off: don't repeat.
    assert_eq!(power_command(Some(false), &state(false, false)), None);
}

#[test]
fn mapped_dmx_states_are_never_seeds() {
    let st = map_dmx(Profile::Rgb, &[255, 0, 0], CctRange::default());
    assert!(!st.seed);
    assert!(st.power);
}

fn driver() -> Driver {
    Driver::resolve("classic", Profile::Rgb, MAC, "", 2)
}

#[test]
fn a_session_flushes_changes_once() {
    let mut s = Session::new();
    let on = LightState { power: true, brightness: 50, ..LightState::default() };
    let first = s.flush(&driver(), &on).unwrap();
    assert_eq!(first.power, Some(true));
    assert_eq!(first.power_frame, Some(classic::power(true)));
    assert_eq!(first.frames, driver().apply_frames(&on));
    assert!(s.flush(&driver(), &on).is_none());
    let dimmer = LightState { brightness: 20, ..on };
    assert!(!same_state(&on, &dimmer));
    let second = s.flush(&driver(), &dimmer).unwrap();
    assert_eq!(second.power, None);
    assert_eq!(second.power_frame, None);
    assert_eq!(second.frames.len(), 1);
    let off = LightState { power: false, ..dimmer };
    let third = s.flush(&driver(), &off).unwrap();
    assert_eq!(third.power_frame, Some(classic::power(false)));
    assert!(third.frames.is_empty());
}

#[test]
fn three_probe_failures_in_a_row_end_a_session() {
    let mut s = Session::new();
    assert_eq!(s.probe(true, Some(true)), Probe::Alive { restored: false });
    assert_eq!(s.probe(true, Some(false)), Probe::Missed { failures: 1 });
    assert_eq!(s.probe(true, None), Probe::Alive { restored: true });
    assert_eq!(s.probe(true, Some(false)), Probe::Missed { failures: 1 });
    assert_eq!(s.probe(true, Some(false)), Probe::Missed { failures: 2 });
    assert_eq!(s.probe(false, Some(true)), Probe::Disconnected);
    assert_eq!(s.probe(true, Some(false)), Probe::Dead { failures: 3 });
}

#[test]
fn names_and_pauses_come_from_what_is_known() {
    assert_eq!(label(&Some("Key".into()), "aa-bb-cc-dd-ee-ff"), "Key");
    assert_eq!(label(&None, "AA:BB:CC:DD:EE:FF"), "AA:BB:CC:DD:EE:FF");
    assert_eq!(resolve_name("NW-1", &Some("NH-2".into())), "NW-1");
    assert_eq!(resolve_name("", &Some("NH-2".into())), "NH-2");
    assert_eq!(resolve_name("", &None), "");
    assert_eq!(flush_ms(15), 66);
    assert_eq!(flush_ms(1), 1000);
    let a = backoff_ms(MAC, 1);
    assert!(a >= 4000);
    assert_eq!(backoff_ms(MAC, 1), a);
}

#[test]
fn a_repeated_status_reply_is_no_news() {
    let mut cache = StatusCache::default();
    // Battery at 80 percent.
    let reply = [0x78, 0x05, 0x08, 0, 0, 0, 0, 0, 0, 0x50];
    let first = cache.decode(&reply).unwrap();
    assert!(first.1);
    let second = cache.decode(&reply).unwrap();
    assert!(!second.1);
    assert_eq!(first.0, second.0);
    assert!(cache.decode(&[1, 2, 3]).is_none());
    let asked = status_queries(MAC, true);
    assert_eq!(asked[0], queries::battery(MAC));
    assert_eq!(asked[2], queries::version(MAC));
    assert_eq!(status_queries(MAC, false).len(), 2);
}
