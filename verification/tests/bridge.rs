use neewer_bridge::artnet::Ip;
use neewer_bridge::bridge::{
    arm_failsafe, failsafe_action, initial_state, note_artnet, Arming, Clocks, Edge,
    FailsafeAction, Loss, Rig, Sink, FAILSAFE_TICK_MS,
};
use neewer_bridge::config::validate::{ConfigError, LightProblem};
use neewer_bridge::config::{Config, FailsafeMode, LightCfg};
use neewer_bridge::profile::{CctRange, Profile};
use neewer_bridge::protocol::{LightState, Mode};

fn sink(address: u16, profile: Profile) -> Sink {
    Sink {
        universe: 0,
        address,
        profile,
        cct: CctRange::default(),
        starved: false,
        state: LightState::default(),
    }
}

#[test]
fn dispatch_maps_the_light_slice() {
    // `rgb` at address 4 reads channels 4-6 = pure green.
    let mut s = sink(4, Profile::Rgb);
    s.dispatch(&[0, 0, 0, 0, 255, 0]);
    let st = s.state;
    assert_eq!(st.mode, Mode::Hsi);
    assert_eq!((st.hue, st.sat, st.brightness), (120, 100, 100));
    assert!(!s.starved);
}

#[test]
fn dispatch_holds_and_flags_when_channels_are_past_the_data() {
    // A light at ch26-28 fed a universe that only carries 12 channels gets no update at
    // all, and the condition latches.
    let mut s = sink(26, Profile::Rgb);
    assert_eq!(s.dispatch(&[255; 12]), Edge::Starved);
    assert!(s.starved, "short data should latch the flag");
    assert_eq!(s.state, LightState::default(), "state must be untouched");

    // Still short: stays latched, still no update.
    assert_eq!(s.dispatch(&[255; 20]), Edge::Same);
    assert!(s.starved);
    assert_eq!(s.state, LightState::default());

    // Data grows to cover the light: the flag clears and the state flows again.
    let mut full = vec![0u8; 28];
    full[25] = 255; // ch26 = red
    assert_eq!(s.dispatch(&full), Edge::Recovered);
    assert!(!s.starved, "recovery should clear the flag");
    assert_eq!(s.state.brightness, 100);
}

#[test]
fn artnet_for_an_unconfigured_universe_does_not_feed_the_failsafe() {
    let mut clocks = Clocks::new(&[0]);
    note_artnet(&mut clocks, 0, 5_000);
    assert_eq!(clocks.last_seen(0), 5_000);

    note_artnet(&mut clocks, 9999, 9_000);
    assert_eq!(clocks.last_seen(0), 5_000, "foreign universe must not count");
    assert_eq!(clocks.len(), 1, "an unconfigured universe must not be tracked");
}

#[test]
fn each_universe_keeps_its_own_idle_clock() {
    let mut clocks = Clocks::new(&[0, 1]);
    note_artnet(&mut clocks, 0, 7_000);
    assert_eq!(clocks.last_seen(0), 7_000);
    assert_eq!(clocks.last_seen(1), 0, "universe 1 has heard nothing");
}

#[test]
fn failsafe_actions_are_edge_triggered() {
    assert!(failsafe_action(FailsafeMode::Hold).is_none());

    let blackout = failsafe_action(FailsafeMode::Blackout).unwrap();
    let mut st = LightState { brightness: 80, power: true, ..LightState::default() };
    assert!(blackout.apply(&mut st));
    assert_eq!(st.brightness, 0);
    assert!(!blackout.apply(&mut st));
    assert!(st.power, "blackout must not cut power — the light stays connected");

    let poweroff = failsafe_action(FailsafeMode::PowerOff).unwrap();
    let mut st = LightState { brightness: 80, power: true, ..LightState::default() };
    assert!(poweroff.apply(&mut st));
    assert!(!st.power);
    assert!(!poweroff.apply(&mut st));
    assert_eq!(st.brightness, 80, "poweroff must not touch brightness");
}

fn light(mac: &str, universe: u16, address: u16) -> LightCfg {
    LightCfg {
        mac: mac.into(),
        name: None,
        driver: "auto".into(),
        profile: "rgb".into(),
        universe,
        address,
        power_on_connect: true,
        cct_min: 32,
        cct_max: 56,
        cmd_type: 2,
    }
}

fn ips() -> [Option<Ip>; 1] {
    [Some(Ip::V4(0))]
}

fn rig() -> Rig {
    let mut cfg = Config::default();
    cfg.lights.push(light("AA:BB:CC:DD:EE:01", 0, 1));
    cfg.lights.push(light("AA:BB:CC:DD:EE:02", 1, 1));
    cfg.lights.push(light("AA:BB:CC:DD:EE:03", 0, 4));
    Rig::new(&cfg, &ips()).unwrap()
}

#[test]
fn a_rig_sends_data_to_the_lights_of_its_universe() {
    let mut rig = rig();
    assert_eq!(rig.len(), 3);
    let mut universes = rig.universes();
    universes.sort();
    assert_eq!(universes, vec![0, 1]);
    let updates = rig.dispatch(0, &[255, 0, 0, 0, 255, 0]);
    let lights: Vec<usize> = updates.iter().map(|u| u.light).collect();
    assert_eq!(lights, vec![0, 2]);
    assert_eq!(rig.state(0).hue, 0);
    assert_eq!(rig.state(2).hue, 120);
    assert_eq!(rig.state(1), initial_state(true));
    assert!(rig.dispatch(5, &[255; 512]).is_empty());
}

#[test]
fn failsafe_fires_per_universe_not_globally() {
    // Two universes, one still receiving and one gone quiet. The live one must NOT vouch
    // for the dead one: only the dead universe's lights black out.
    let mut cfg = Config::default();
    cfg.failsafe.mode = "blackout".into();
    cfg.failsafe.timeout_secs = 1;
    cfg.lights.push(light("AA:BB:CC:DD:EE:01", 0, 1));
    cfg.lights.push(light("AA:BB:CC:DD:EE:02", 1, 1));
    let mut rig = Rig::new(&cfg, &ips()).unwrap();
    // Start both lit, at a brightness of 80.
    rig.dispatch(0, &[204, 0, 0]);
    rig.dispatch(1, &[204, 0, 0]);
    assert_eq!((rig.state(0).brightness, rig.state(1).brightness), (80, 80));

    let universes = vec![0, 1];
    let mut clocks = Clocks::new(&universes);
    let mut timer = match arm_failsafe(&cfg.failsafe.mode, cfg.failsafe.timeout_secs, universes) {
        Arming::Armed(t) => t,
        other => panic!("must be armed, got {other:?}"),
    };
    // Keep universe 0's source "alive" for well past the timeout.
    for step in 0..18u64 {
        let now = step * 100;
        note_artnet(&mut clocks, 0, now);
        if now % FAILSAFE_TICK_MS == 0 {
            for loss in timer.tick(&clocks, now) {
                rig.fail_safe(loss.universe, timer.action());
            }
        }
    }
    assert_eq!(rig.state(0).brightness, 80, "a universe still receiving must be untouched");
    assert_eq!(rig.state(1).brightness, 0, "the silent universe's lights must black out");
}

#[test]
fn a_loss_is_announced_once_and_data_overrides_it() {
    let mut rig = rig();
    rig.dispatch(1, &[255, 0, 0]);
    let mut timer = match arm_failsafe("blackout", 1, vec![0, 1]) {
        Arming::Armed(t) => t,
        other => panic!("must be armed, got {other:?}"),
    };
    let mut clocks = Clocks::new(&[0, 1]);
    note_artnet(&mut clocks, 0, 1_700);
    let lost = timer.tick(&clocks, 1_800);
    assert_eq!(lost, vec![Loss { universe: 1, idle_secs: 1, first: true }]);
    assert_eq!(rig.fail_safe(1, timer.action()).len(), 1);
    // The failsafe costs nothing while the loss lasts.
    assert_eq!(
        timer.tick(&clocks, 1_900),
        vec![Loss { universe: 1, idle_secs: 1, first: false }]
    );
    assert!(rig.fail_safe(1, FailsafeAction::Blackout).is_empty());
    // Data that comes back overrides it.
    rig.dispatch(1, &[255, 0, 0]);
    assert_eq!(rig.state(1).brightness, 100);
}

#[test]
fn spawn_failsafe_registers_a_supervised_task_only_when_armed() {
    let armed = |mode: &str, timeout_secs: u64, universes: Vec<u16>| {
        matches!(arm_failsafe(mode, timeout_secs, universes), Arming::Armed(_))
    };
    assert!(armed("blackout", 5, vec![0]), "an armed failsafe must be supervised");
    assert!(armed("poweroff", 5, vec![0, 1]), "one timer covers every universe");
    assert!(!armed("hold", 5, vec![0]), "hold has nothing to run");
    assert!(!armed("blackout", 0, vec![0]), "timeout_secs = 0 behaves like hold");
    assert!(!armed("blackout", 5, vec![]), "no lights: nothing to fail safe");
    assert!(matches!(
        arm_failsafe("blackout", 0, vec![0]),
        Arming::NoTimeout(FailsafeMode::Blackout)
    ));
}

#[test]
fn run_rejects_an_invalid_config_instead_of_panicking() {
    let mut cfg = Config::default();
    cfg.lights.push(light("not-a-mac", 0, 1));
    assert!(matches!(
        Rig::new(&cfg, &ips()),
        Err(ConfigError::Light { index: 0, problem: LightProblem::Mac })
    ));
}

#[test]
fn a_light_starts_on_or_is_left_alone() {
    let on = initial_state(true);
    assert!(on.power && !on.seed);
    let passive = initial_state(false);
    assert!(!passive.power && passive.seed);
}
