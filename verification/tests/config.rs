use neewer_bridge::artnet::{Ip, ARTNET_PORT};
use neewer_bridge::config::validate::{bare_address, ConfigError, LightProblem};
use neewer_bridge::config::{
    append_light, format_mac, mac_eq, normalize_mac, parse_mac, toml_escape, ArtNetInput, Config,
    FailsafeMode, LightCfg, MacError, DEFAULT_CCT_MAX, DEFAULT_CCT_MIN,
};

/// The address that a bind text names, as the application reads it.
fn ip(text: &str) -> Option<Ip> {
    let bare = bare_address(text);
    if let Some(v4) = ipv4(&bare) {
        return Some(Ip::V4(v4));
    }
    let (head, tail) = match bare.split_once("::") {
        Some((h, t)) => (groups(h)?, Some(groups(t)?)),
        None => (groups(&bare)?, None),
    };
    let all = match tail {
        Some(t) => {
            if head.len() + t.len() > 7 {
                return None;
            }
            let mut v = head.clone();
            v.resize(8 - t.len(), 0);
            v.extend(t);
            v
        }
        None => head,
    };
    if all.len() != 8 {
        return None;
    }
    Some(Ip::V6(all.iter().fold(0u128, |n, g| (n << 16) | *g as u128)))
}

fn ipv4(s: &str) -> Option<u32> {
    let parts: Vec<&str> = s.split('.').collect();
    if parts.len() != 4 {
        return None;
    }
    let mut n = 0u32;
    for p in parts {
        n = (n << 8) | p.parse::<u8>().ok()? as u32;
    }
    Some(n)
}

fn groups(s: &str) -> Option<Vec<u16>> {
    if s.is_empty() {
        return Some(vec![]);
    }
    let mut out = vec![];
    for g in s.split(':') {
        if let Some(v4) = ipv4(g) {
            out.push((v4 >> 16) as u16);
            out.push(v4 as u16);
        } else {
            out.push(u16::from_str_radix(g, 16).ok()?);
        }
    }
    Some(out)
}

fn check(c: &Config) -> Result<(), ConfigError> {
    let ips: Vec<Option<Ip>> =
        c.artnet.resolved_inputs().iter().map(|i| ip(&i.bind_ip)).collect();
    c.validate(&ips)
}

#[test]
fn parse_mac_forms() {
    let want = [0xAA, 0xBB, 0xCC, 0xDD, 0xEE, 0xFF];
    assert_eq!(parse_mac("AA:BB:CC:DD:EE:FF").unwrap(), want);
    assert_eq!(parse_mac("aa-bb-cc-dd-ee-ff").unwrap(), want);
    assert_eq!(parse_mac("AABBCCDDEEFF").unwrap(), want);
    assert!(parse_mac("AA:BB:CC").is_err());
    assert!(parse_mac("GG:BB:CC:DD:EE:FF").is_err());
}

#[test]
fn normalize_and_eq() {
    assert_eq!(normalize_mac("aa-bb-cc-dd-ee-ff"), "AA:BB:CC:DD:EE:FF");
    assert!(mac_eq("AABBCCDDEEFF", "aa:bb:cc:dd:ee:ff"));
    assert!(!mac_eq("AABBCCDDEEFF", "aa:bb:cc:dd:ee:00"));
}

#[test]
fn macs_that_are_none_are_counted_and_compared_as_texts() {
    assert_eq!(parse_mac("AA:BB:CC"), Err(MacError { digits: 6 }));
    assert_eq!(normalize_mac("not a mac: straße"), "NOT A MAC: STRASSE");
    assert!(mac_eq("Key", "kEY"));
    assert!(!mac_eq("Key", "AABBCCDDEEFF"));
    assert_eq!(format_mac([1, 2, 0xAB, 4, 5, 6]), "01:02:AB:04:05:06");
}

#[test]
fn validate_rejects_unknown_failsafe_mode() {
    let mut c = Config::default();
    assert!(check(&c).is_ok()); // default "hold"
    c.failsafe.mode = "explode".into();
    assert_eq!(check(&c), Err(ConfigError::FailsafeMode));
    c.failsafe.mode = "blackout".into();
    assert!(check(&c).is_ok());
    assert_eq!(FailsafeMode::parse("poweroff").unwrap().as_str(), "poweroff");
}

fn light(mac: &str) -> LightCfg {
    LightCfg {
        mac: mac.into(),
        name: None,
        driver: "auto".into(),
        profile: "full".into(),
        universe: 0,
        address: 1,
        power_on_connect: true,
        cct_min: DEFAULT_CCT_MIN,
        cct_max: DEFAULT_CCT_MAX,
        cmd_type: 2,
    }
}

fn lights_of(text: &str) -> Vec<toml::Table> {
    let table: toml::Table = toml::from_str(text).expect("the text must parse");
    match &table["lights"] {
        toml::Value::Array(list) => list.iter().map(|l| l.as_table().unwrap().clone()).collect(),
        _ => panic!("lights must be an array"),
    }
}

#[test]
fn append_light_round_trips() {
    let first = LightCfg {
        name: Some("Key".into()),
        universe: 2,
        address: 5,
        cmd_type: 1,
        ..light("aa-bb-cc-dd-ee-ff")
    };
    let text = append_light("", &first);
    // Append a second one to confirm multiple [[lights]] blocks accumulate.
    let second = LightCfg { mac: "11:22:33:44:55:66".into(), ..first.clone() };
    let text = append_light(&text, &second);

    let lights = lights_of(&text);
    assert_eq!(lights.len(), 2);
    assert_eq!(normalize_mac(lights[0]["mac"].as_str().unwrap()), "AA:BB:CC:DD:EE:FF");
    assert_eq!(lights[0]["name"].as_str(), Some("Key"));
    assert_eq!(lights[0]["universe"].as_integer(), Some(2));
    assert_eq!(lights[1]["address"].as_integer(), Some(5));
    assert_eq!(lights[0]["cmd_type"].as_integer(), Some(1));
}

#[test]
fn for_command_missing_vs_broken() {
    // Missing file: defaults.
    let cfg = Config::for_command(false, Err("not found")).unwrap();
    assert_eq!(cfg.artnet.port, ARTNET_PORT);
    // Existing but broken: hard error, NOT silent defaults.
    assert_eq!(Config::for_command(true, Err("broken")).unwrap_err(), "broken");
    // A good file is passed straight through.
    let mut good = Config::default();
    good.artnet.port = 6789;
    let cfg = Config::for_command::<&str>(true, Ok(good)).unwrap();
    assert_eq!(cfg.artnet.port, 6789);
}

#[test]
fn append_light_replaces_the_config_atomically() {
    let before = "[artnet]\nport = 6789\n\n# keep this comment\n";
    let new = LightCfg { profile: "rgb".into(), ..light("AA:BB:CC:DD:EE:05") };
    let text = append_light(before, &new);
    assert!(text.contains("port = 6789"), "existing settings must survive");
    assert!(text.contains("# keep this comment"), "comments must survive");
    assert_eq!(lights_of(&text).len(), 1);
}

#[test]
fn validate_rejects_zero_ble_intervals() {
    let mut c = Config::default();
    assert!(check(&c).is_ok());
    c.ble.flush_hz = 0;
    assert_eq!(check(&c), Err(ConfigError::ZeroFlush));
    c.ble.flush_hz = 15;
    c.ble.probe_secs = 0;
    assert_eq!(check(&c), Err(ConfigError::ZeroProbe));
    c.ble.probe_secs = 20;
    c.ble.scan_window_secs = 0;
    assert_eq!(check(&c), Err(ConfigError::ZeroScanWindow));
    c.ble.scan_window_secs = 8;
    c.ble.scan_pause_secs = 0; // legal: continuous scan while searching
    assert!(check(&c).is_ok());
}

#[test]
fn append_light_escapes_name_and_omits_empty() {
    // A name with a quote + backslash must survive the TOML round trip.
    let named = LightCfg {
        name: Some("Key \"main\" \\ rig".into()),
        ..light("AA:BB:CC:DD:EE:01")
    };
    let text = append_light("", &named);
    // No name at all: the name line is omitted (not `name = ""`).
    let unnamed = LightCfg { name: None, address: 10, ..light("AA:BB:CC:DD:EE:02") };
    let text = append_light(&text, &unnamed);
    let lights = lights_of(&text);
    assert_eq!(lights[0]["name"].as_str(), Some("Key \"main\" \\ rig"));
    assert!(!lights[1].contains_key("name"));
}

#[test]
fn append_light_survives_a_del_in_the_name() {
    // DEL is banned in TOML basic strings just like the other controls.
    let named = LightCfg {
        name: Some(format!("Key{}rig", char::from(0x7F))),
        ..light("AA:BB:CC:DD:EE:04")
    };
    let lights = lights_of(&append_light("", &named));
    assert_eq!(lights[0]["name"].as_str(), Some("Key rig"));
    assert_eq!(toml_escape("a\"\\\n"), "a\\\"\\\\ ");
}

fn input(name: Option<&str>, bind_ip: &str, port: u16) -> ArtNetInput {
    ArtNetInput { name: name.map(|n| n.to_string()), bind_ip: bind_ip.into(), port }
}

#[test]
fn artnet_inputs_parse_and_resolve() {
    let mut cfg = Config::default();
    cfg.artnet.bind_ip = "192.168.1.4".into();
    cfg.artnet.port = 6454;
    cfg.artnet.merge = "htp".into();
    cfg.artnet.merge_timeout_secs = 5;
    cfg.artnet.inputs.push(input(Some("console"), "0.0.0.0", 6455));
    cfg.artnet.inputs.push(input(None, "192.168.1.5", 6454));
    check(&cfg).unwrap();
    let inputs = cfg.artnet.resolved_inputs();
    let plain: Vec<(&str, u16, &str)> =
        inputs.iter().map(|i| (i.bind_ip.as_str(), i.port, i.label.as_str())).collect();
    // An unnamed entry gets a positional label. Both 6454 binds are legal because they are
    // on specific (different) addresses.
    assert_eq!(
        plain,
        vec![
            ("192.168.1.4", 6454, "primary"),
            ("0.0.0.0", 6455, "console"),
            ("192.168.1.5", 6454, "input2"),
        ]
    );
    assert_eq!(cfg.artnet.merge, "htp");
    assert_eq!(cfg.artnet.merge_timeout_secs, 5);
}

#[test]
fn artnet_defaults_are_single_input_ltp() {
    let cfg = Config::default();
    assert_eq!(cfg.artnet.merge, "ltp");
    assert_eq!(cfg.artnet.merge_timeout_secs, 10);
    assert_eq!(cfg.artnet.resolved_inputs().len(), 1);
    check(&cfg).unwrap();
}

#[test]
fn validate_rejects_bad_merge_config() {
    let mut c = Config::default();
    c.artnet.merge = "average".into();
    assert_eq!(check(&c), Err(ConfigError::MergeMode)); // unknown merge mode

    c.artnet.merge = "ltp".into();
    c.artnet.inputs.push(input(None, "0.0.0.0", 6454));
    assert!(check(&c).is_err()); // duplicates the primary bind

    c.artnet.inputs[0].port = 6455;
    assert!(check(&c).is_ok());

    c.artnet.inputs.push(input(None, "0.0.0.0", 6455));
    assert!(check(&c).is_err()); // duplicate among extras
    c.artnet.inputs[1].bind_ip = "10.0.0.1".into();
    assert!(check(&c).is_err()); // wildcard + specific IP on one port
    c.artnet.inputs[0].bind_ip = "10.0.0.2".into(); // two specific IPs = fine
    assert!(check(&c).is_ok());

    c.artnet.inputs[1].port = 0;
    assert_eq!(check(&c), Err(ConfigError::ZeroPort { input: 2 })); // port 0

    c.artnet.inputs[1].port = 6455;
    for p in 0..7u16 {
        c.artnet.inputs.push(input(None, "0.0.0.0", 7000 + p));
    }
    assert_eq!(check(&c), Err(ConfigError::TooManyInputs)); // more than 7 extra inputs
}

#[test]
fn every_spelling_of_the_wildcard_address_is_caught() {
    for wildcard in [
        "0.0.0.0",
        "::",
        "[::]",
        "::0",
        "0:0:0:0:0:0:0:0",
        " 0.0.0.0 ",
        "0000:0000:0000:0000:0000:0000:0000:0000",
    ] {
        let mut c = Config::default();
        c.artnet.bind_ip = wildcard.into();
        c.artnet.port = 6454;
        c.artnet.inputs.push(input(Some("console"), "10.0.0.1", 6454));
        assert_eq!(
            check(&c),
            Err(ConfigError::WildcardShared { first: 0, second: 1 }),
            "{wildcard} must be rejected"
        );
    }
    // A specific address on a shared port stays legal: that IS the multi-IP use case.
    let mut c = Config::default();
    c.artnet.bind_ip = "10.0.0.2".into();
    c.artnet.inputs.push(input(Some("console"), "10.0.0.1", 6454));
    check(&c).unwrap();
    // …including addresses that merely start with a zero.
    c.artnet.bind_ip = "0.0.0.1".into();
    check(&c).unwrap();
}

#[test]
fn duplicate_bind_addresses_are_caught_however_they_are_spelled() {
    for (a, b) in [
        ("::1", "0:0:0:0:0:0:0:1"),
        ("::1", "[::1]"),
        ("10.0.0.1", " 10.0.0.1 "),
        ("::ffff:10.0.0.1", "::ffff:10.0.0.1"),
        ("fe80::1", "FE80::1"), // IPv6 literals are case-insensitive
    ] {
        let mut c = Config::default();
        c.artnet.bind_ip = a.into();
        c.artnet.port = 6454;
        c.artnet.inputs.push(input(Some("console"), b, 6454));
        assert_eq!(
            check(&c),
            Err(ConfigError::SameBind { first: 0, second: 1 }),
            "{a} vs {b} must be rejected"
        );
    }

    // Genuinely different addresses on one port stay legal.
    for (a, b) in [("10.0.0.1", "10.0.0.2"), ("::1", "::2"), ("10.0.0.1", "::1")] {
        let mut c = Config::default();
        c.artnet.bind_ip = a.into();
        c.artnet.port = 6454;
        c.artnet.inputs.push(input(Some("console"), b, 6454));
        assert!(check(&c).is_ok(), "{a} vs {b} must be allowed");
    }

    // A name that is no address falls back to a text compare.
    let mut c = Config::default();
    c.artnet.bind_ip = "my-host.local".into();
    c.artnet.port = 6454;
    c.artnet.inputs.push(input(Some("console"), "my-host.local", 6454));
    assert!(check(&c).is_err(), "identical hostnames on one port must be rejected");
}

#[test]
fn validate_rejects_duplicate_input_labels() {
    let mut c = Config::default();
    c.artnet.inputs.push(input(Some("console"), "0.0.0.0", 6455));
    c.artnet.inputs.push(input(Some("console"), "0.0.0.0", 6456));
    assert_eq!(
        check(&c),
        Err(ConfigError::SameLabel { first: 1, second: 2 }),
        "two inputs named 'console' must be rejected"
    );

    // A name colliding with an auto-generated label counts too.
    c.artnet.inputs[1].name = Some("primary".into());
    assert!(check(&c).is_err(), "a name may not collide with the primary label");

    c.artnet.inputs[1].name = Some("desk".into());
    assert!(check(&c).is_ok());
}

#[test]
fn validate_rejects_zero_log_rotation_sizes() {
    let mut c = Config::default();
    c.logging.max_size_mb = 0;
    assert!(check(&c).is_ok(), "no file sink: rotation settings are inert");

    c.logging.file = Some("bridge.log".into());
    assert_eq!(check(&c), Err(ConfigError::ZeroLogSize));

    c.logging.max_size_mb = 10;
    c.logging.max_files = 0;
    assert_eq!(check(&c), Err(ConfigError::ZeroLogFiles));

    c.logging.max_files = 5;
    assert!(check(&c).is_ok());
}

#[test]
fn validate_rejects_a_completely_silenced_logger() {
    let mut c = Config::default();
    c.logging.console = false;
    assert_eq!(check(&c), Err(ConfigError::Silent));

    // An empty `file` is the same as no file.
    c.logging.file = Some(String::new());
    assert!(check(&c).is_err(), "an empty file path is not a file sink");

    // Console off WITH a file is a perfectly ordinary daemon setup.
    c.logging.file = Some("bridge.log".into());
    check(&c).unwrap();

    // …and console on with no file is the default.
    let c = Config::default();
    assert!(c.logging.console && c.logging.file.is_none());
    check(&c).unwrap();
}

#[test]
fn validate_checks_logging_levels() {
    let mut c = Config::default();
    assert!(check(&c).is_ok()); // default level "info"
    c.logging.level = "verbose".into();
    assert_eq!(check(&c), Err(ConfigError::LogLevel)); // unknown global level
    c.logging.level = "debug".into();
    assert!(check(&c).is_ok());
    c.logging.file_level = Some("nope".into());
    assert_eq!(check(&c), Err(ConfigError::FileLevel)); // unknown per-sink override
    c.logging.file_level = Some("trace".into());
    assert!(check(&c).is_ok());
    c.logging.console_level = Some("nope".into());
    assert_eq!(check(&c), Err(ConfigError::ConsoleLevel));
    c.logging.console_level = Some("WARN".into());
    assert!(check(&c).is_ok());
}

#[test]
fn validate_catches_bad_profile_and_dupes() {
    let mut c = Config::default();
    c.lights.push(LightCfg { profile: "nope".into(), ..light("AA:BB:CC:DD:EE:FF") });
    assert_eq!(
        check(&c),
        Err(ConfigError::Light { index: 0, problem: LightProblem::Profile })
    ); // bad profile

    c.lights[0].profile = "full".into();
    assert!(check(&c).is_ok());

    let mut dupe = c.lights[0].clone();
    dupe.mac = "aa-bb-cc-dd-ee-ff".into();
    c.lights.push(dupe);
    assert_eq!(check(&c), Err(ConfigError::DuplicateMac { first: 0, second: 1 })); // duplicate mac
}

#[test]
fn every_problem_of_a_light_is_named() {
    let problem = |l: LightCfg| {
        let mut c = Config::default();
        c.lights.push(l);
        match check(&c) {
            Err(ConfigError::Light { index: 0, problem }) => problem,
            other => panic!("expected a light problem, got {other:?}"),
        }
    };
    let ok = || light("AA:BB:CC:DD:EE:FF");
    assert_eq!(problem(light("AA")), LightProblem::Mac);
    assert_eq!(problem(LightCfg { driver: "x".into(), ..ok() }), LightProblem::Driver);
    assert_eq!(problem(LightCfg { universe: 32768, ..ok() }), LightProblem::Universe);
    assert_eq!(problem(LightCfg { address: 0, ..ok() }), LightProblem::Address);
    assert_eq!(problem(LightCfg { address: 513, ..ok() }), LightProblem::Address);
    assert_eq!(problem(LightCfg { address: 509, ..ok() }), LightProblem::Overrun { last: 513 });
    assert_eq!(problem(LightCfg { cct_min: 60, ..ok() }), LightProblem::CctRange);
    assert_eq!(problem(LightCfg { cmd_type: 4, ..ok() }), LightProblem::CmdType);
}

#[test]
fn equal_spellings_have_one_canonical_form() {
    let spellings = ["aa-bb-cc-dd-ee-ff", "AABBCCDDEEFF", "aa:bb:cc:dd:ee:ff", "key", "KEY", "kez"];
    for a in spellings {
        assert!(mac_eq(a, &normalize_mac(a)));
        for b in spellings {
            assert_eq!(mac_eq(a, b), normalize_mac(a) == normalize_mac(b), "{a} {b}");
        }
    }
}
