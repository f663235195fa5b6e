use neewer_bridge::logging::{
    directive_for, filter_directive, level_rank, rotation, sink_level, RANK_TRACE,
};

#[test]
fn verbosity_never_lowers_a_configured_level() {
    // Without -v the config alone decides.
    assert_eq!(filter_directive("info", 0), "warn,neewer_bridge=info");
    assert_eq!(filter_directive("trace", 0), "warn,neewer_bridge=trace");
    assert_eq!(filter_directive("WARN", 0), "warn,neewer_bridge=warn");

    // -v raises a quieter sink to debug...
    assert_eq!(filter_directive("info", 1), "warn,neewer_bridge=debug");
    assert_eq!(filter_directive("error", 1), "warn,neewer_bridge=debug");
    // ...but must NOT demote one already above it.
    assert_eq!(filter_directive("trace", 1), "warn,neewer_bridge=trace");
    assert_eq!(filter_directive("debug", 1), "warn,neewer_bridge=debug");

    // -vv is trace plus the BLE wire logs, whatever was configured.
    assert_eq!(filter_directive("error", 2), "info,neewer_bridge=trace,btleplug=debug");
    assert_eq!(filter_directive("trace", 2), "info,neewer_bridge=trace,btleplug=debug");
    assert_eq!(filter_directive("info", 9), "info,neewer_bridge=trace,btleplug=debug");
}

#[test]
fn level_rank_orders_levels_and_floors_unknown_names() {
    assert!(level_rank("error") < level_rank("warn"));
    assert!(level_rank("warn") < level_rank("info"));
    assert!(level_rank("info") < level_rank("debug"));
    assert!(level_rank("debug") < level_rank("trace"));
    assert_eq!(level_rank("TRACE"), RANK_TRACE);
    // Unknown ranks lowest, so it can never hold a sink above -v's floor.
    assert_eq!(level_rank("nonsense"), 0);
    assert_eq!(filter_directive("nonsense", 1), "warn,neewer_bridge=debug");
}

#[test]
fn levels_are_lowered_beyond_ascii_too() {
    // The Kelvin sign lowers to a plain `k`.
    assert_eq!(filter_directive("\u{212A}", 0), "warn,neewer_bridge=k");
    assert_eq!(directive_for("INFO", "info", 0), "warn,neewer_bridge=info");
}

#[test]
fn a_sink_has_its_own_level_or_the_default_one() {
    assert_eq!(sink_level(&Some("trace".into()), "info"), "trace");
    assert_eq!(sink_level(&None, "info"), "info");
    assert_eq!(rotation(10, 5), (10 * 1024 * 1024, 5));
    assert_eq!(rotation(0, 0), (1024 * 1024, 1));
}
