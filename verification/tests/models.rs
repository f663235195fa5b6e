use neewer_bridge::models::{recognise, Catalog, Model, ModelKeys};
use neewer_bridge::profile::Profile;

fn entry(name: &str, ids: &[&str], parts: &[&str]) -> Model {
    Model {
        name: name.into(),
        product_ids: ids.iter().map(|s| s.to_string()).collect(),
        name_matches: parts.iter().map(|s| s.to_string()).collect(),
        driver: "classic".into(),
        supports_rgb: true,
        supports_gm: true,
        cct_min: 25,
        cct_max: 100,
        cmd_type: 2,
        supports_rgbcw: true,
        supports_xy: true,
        supports_dmx: false,
        supports_fx: true,
        pixel_classify: 1,
    }
}

fn catalog() -> Catalog {
    Catalog {
        models: vec![
            entry("TL120C", &["20240047", "20230031"], &["TL120C"]),
            entry("RGB660", &[], &["RGB660"]),
            entry("RGB660 PRO", &[], &["RGB660 PRO"]),
            entry("SL90", &[], &["SL90"]),
            entry("SL90 Pro", &[], &["SL90 Pro"]),
            Model {
                supports_rgb: false,
                supports_gm: false,
                ..entry("MS60B", &[], &["MS60B"])
            },
        ],
    }
}

#[test]
fn identifies_tl120c_by_product_id() {
    let c = catalog();
    for name in ["NW-20240047&00000000", "NW-20230031&FFFFFFFF"] {
        let m = c.identify(name).expect("should match TL120C");
        assert_eq!(m.name, "TL120C");
        assert!(m.supports_rgb);
        assert_eq!((m.cct_min, m.cct_max), (25, 100));
        assert_eq!(m.profile(), Profile::Advanced);
        assert!(m.supports_fx);
        assert_eq!(m.driver, "classic");
    }
}

#[test]
fn name_match_prefers_longest_and_specific() {
    let c = catalog();
    // "RGB660 PRO" must not be swallowed by the "RGB660" entry.
    assert_eq!(c.identify("NEEWER-RGB660 PRO").unwrap().name, "RGB660 PRO");
    assert_eq!(c.identify("NEEWER-RGB660").unwrap().name, "RGB660");
    // SL90 Pro vs SL90.
    assert_eq!(c.identify("NEEWER-SL90 Pro").unwrap().name, "SL90 Pro");
}

#[test]
fn bi_color_profile_selection() {
    let c = catalog();
    let ms60b = c.identify("NEEWER-MS60B").unwrap();
    assert!(!ms60b.supports_rgb);
    assert_eq!(ms60b.profile(), Profile::Cct); // no GM
}

#[test]
fn unknown_returns_none() {
    let c = catalog();
    assert!(c.identify("LHB-B35DA7F3").is_none()); // a base station
    assert!(c.identify("").is_none());
}

#[test]
fn names_are_compared_in_upper_case_beyond_ascii() {
    let c = Catalog { models: vec![entry("Gross", &[], &["STRASSE"])] };
    // The sharp s goes to two letters in upper case.
    assert_eq!(c.identify("nw-straße").unwrap().name, "Gross");
    assert!(c.identify("nw-strase").is_none());
}

#[test]
fn product_ids_win_over_name_parts() {
    let c = Catalog {
        models: vec![entry("ByName", &[], &["NW-20240047"]), entry("ById", &["20240047"], &[])],
    };
    assert_eq!(c.identify("NW-20240047&1").unwrap().name, "ById");
    let keys = vec![
        ModelKeys { ids: vec![], names: vec![("AB".into(), 2)] },
        ModelKeys { ids: vec![], names: vec![("ABC".into(), 3), ("X".into(), 1)] },
        ModelKeys { ids: vec![], names: vec![("BCD".into(), 3)] },
    ];
    // The longest part, and the first among equals.
    assert_eq!(recognise(&keys, "ABCD"), Some(1));
    assert_eq!(recognise(&keys, "AB"), Some(0));
    assert_eq!(recognise(&keys, "Q"), None);
}
