use neewer_bridge::artnet::Ip;
use neewer_bridge::clock::{millis, secs};
use neewer_bridge::merge::{note_sender, Interest, MergeMode, Merger, Senders};

fn at(t0: u128, n: u64) -> u128 {
    t0 + secs(n)
}

fn merger(mode: MergeMode, timeout_secs: u64, n: usize) -> Merger {
    Merger::new(mode, secs(timeout_secs), n)
}

#[test]
fn parse_modes_and_aliases() {
    assert_eq!(MergeMode::parse("htp"), Some(MergeMode::Htp));
    assert_eq!(MergeMode::parse("HIGHEST"), Some(MergeMode::Htp));
    assert_eq!(MergeMode::parse("lowest"), Some(MergeMode::Lowest));
    assert_eq!(MergeMode::parse("ltp"), Some(MergeMode::Ltp));
    assert_eq!(MergeMode::parse("latest"), Some(MergeMode::Ltp));
    assert_eq!(MergeMode::parse("nope"), None);
}

#[test]
fn single_input_is_identity_in_every_mode() {
    let t0: u128 = 5_000_000_000;
    for mode in [MergeMode::Htp, MergeMode::Lowest, MergeMode::Ltp] {
        let mut m = merger(mode, 10, 1);
        assert_eq!(m.ingest(0, 0, &[7, 8, 9], t0).1, &[7, 8, 9]);
        assert_eq!(m.ingest(0, 0, &[1, 2, 3], at(t0, 1)).1, &[1, 2, 3]);
    }
}

#[test]
fn htp_takes_max_per_channel() {
    let t0: u128 = 5_000_000_000;
    let mut m = merger(MergeMode::Htp, 10, 2);
    assert_eq!(m.ingest(0, 0, &[10, 200, 5], t0).1, &[10, 200, 5]);
    assert_eq!(m.ingest(1, 0, &[20, 100, 5], t0).1, &[20, 200, 5]);
    // Input 0 lowering its own value only shows where it still wins.
    assert_eq!(m.ingest(0, 0, &[0, 150, 5], at(t0, 1)).1, &[20, 150, 5]);
}

#[test]
fn lowest_takes_min_per_channel() {
    let t0: u128 = 5_000_000_000;
    let mut m = merger(MergeMode::Lowest, 10, 2);
    assert_eq!(m.ingest(0, 0, &[10, 200], t0).1, &[10, 200]);
    assert_eq!(m.ingest(1, 0, &[20, 100], t0).1, &[10, 100]);
}

#[test]
fn short_lane_does_not_contribute_beyond_its_length() {
    let t0: u128 = 5_000_000_000;
    // In lowest mode a phantom 0 from a short lane would be catastrophic.
    let mut m = merger(MergeMode::Lowest, 10, 2);
    m.ingest(0, 0, &[50, 60], t0);
    assert_eq!(m.ingest(1, 0, &[10], t0).1, &[10, 60]);
}

#[test]
fn ltp_change_takes_ownership_resend_does_not() {
    let t0: u128 = 5_000_000_000;
    let mut m = merger(MergeMode::Ltp, 10, 2);
    assert_eq!(m.ingest(0, 0, &[100, 100], t0).1, &[100, 100]);
    // Input 1's first packet asserts its state (takes what it carries).
    assert_eq!(m.ingest(1, 0, &[100, 50], t0).1, &[100, 50]);
    // Input 0 re-streaming its unchanged data does NOT steal ch2 back —
    // last CHANGED, not last received.
    assert_eq!(m.ingest(0, 0, &[100, 100], at(t0, 1)).1, &[100, 50]);
    // ...but an actual change does take the channel.
    assert_eq!(m.ingest(0, 0, &[100, 80], at(t0, 2)).1, &[100, 80]);
    // And input 1 re-sending ITS old value doesn't steal it back either.
    assert_eq!(m.ingest(1, 0, &[100, 50], at(t0, 3)).1, &[100, 80]);
}

#[test]
fn ltp_timeout_falls_back_to_live_source() {
    let t0: u128 = 5_000_000_000;
    let mut m = merger(MergeMode::Ltp, 10, 2);
    m.ingest(1, 0, &[10], t0);
    m.ingest(0, 0, &[201], at(t0, 1)); // input 0 takes the channel
    m.ingest(1, 0, &[10], at(t0, 5)); // unchanged — no steal
    assert_eq!(m.merged(0).unwrap(), &[201]);
    // Input 0 silent past the timeout → its channel falls back to input 1.
    assert_eq!(m.prune(at(t0, 12)), vec![0]);
    assert_eq!(m.merged(0).unwrap(), &[10]);
}

#[test]
fn htp_timeout_drops_contribution() {
    let t0: u128 = 5_000_000_000;
    let mut m = merger(MergeMode::Htp, 10, 2);
    m.ingest(0, 0, &[255], t0);
    m.ingest(1, 0, &[10], at(t0, 9));
    assert_eq!(m.merged(0).unwrap(), &[255]);
    // At t0+11 input 0 (last seen t0) is expired, input 1 (t0+9) is live.
    assert_eq!(m.prune(at(t0, 11)), vec![0]);
    assert_eq!(m.merged(0).unwrap(), &[10]);
}

#[test]
fn all_sources_dead_holds_last_merge() {
    let t0: u128 = 5_000_000_000;
    for mode in [MergeMode::Htp, MergeMode::Lowest, MergeMode::Ltp] {
        let mut m = merger(mode, 10, 2);
        m.ingest(0, 0, &[42, 7], t0);
        m.ingest(1, 0, &[42, 9], t0);
        // Both expired: the merged output holds (nothing "changed").
        assert_eq!(m.prune(at(t0, 60)), Vec::<u16>::new());
        assert_eq!(m.merged(0).unwrap().len(), 2);
        assert_eq!(m.merged(0).unwrap()[0], 42);
    }
}

#[test]
fn timeout_zero_never_expires() {
    let t0: u128 = 5_000_000_000;
    let mut m = merger(MergeMode::Htp, 0, 2);
    m.ingest(0, 0, &[255], t0);
    m.ingest(1, 0, &[10], t0);
    assert!(!m.timeout_enabled());
    assert_eq!(m.prune(at(t0, 3600)), Vec::<u16>::new());
    assert_eq!(m.merged(0).unwrap(), &[255]);
}

#[test]
fn ltp_returning_source_reasserts_after_silence() {
    let t0: u128 = 5_000_000_000;
    let mut m = merger(MergeMode::Ltp, 10, 2);
    m.ingest(0, 0, &[5], t0);
    m.ingest(1, 0, &[9], t0); // input 1 owns (first packet asserts)
    assert_eq!(m.merged(0).unwrap(), &[9]);
    // Input 0 returns after silence past the timeout, re-sending its old
    // value — a returning source re-asserts its state even unchanged.
    assert_eq!(m.ingest(0, 0, &[5], at(t0, 20)).1, &[5]);
}

#[test]
fn universes_are_independent() {
    let t0: u128 = 5_000_000_000;
    let mut m = merger(MergeMode::Htp, 10, 2);
    m.ingest(0, 1, &[100], t0);
    m.ingest(1, 2, &[50], t0);
    assert_eq!(m.merged(1).unwrap(), &[100]);
    assert_eq!(m.merged(2).unwrap(), &[50]);
    assert!(m.merged(3).is_none());
}

#[test]
fn merged_length_is_monotonic_and_short_updates_hold_the_tail() {
    let t0: u128 = 5_000_000_000;
    let mut m = merger(MergeMode::Htp, 10, 2);
    assert_eq!(m.ingest(0, 0, &[1, 2, 3], t0).1, &[1, 2, 3]);
    assert_eq!(m.ingest(1, 0, &[9], t0).1, &[9, 2, 3]);
    // A shorter refresh from input 0 leaves ch2/ch3 holding.
    assert_eq!(m.ingest(0, 0, &[1, 2], at(t0, 1)).1, &[9, 2, 3]);
}

#[test]
fn ingest_reports_whether_the_merge_changed() {
    let t0: u128 = 5_000_000_000;
    let mut m = merger(MergeMode::Ltp, 10, 2);
    assert!(m.ingest(0, 0, &[10, 20], t0).0); // first packet (length grew)
    assert!(!m.ingest(0, 0, &[10, 20], at(t0, 1)).0); // identical refresh
    assert!(m.ingest(0, 0, &[10, 21], at(t0, 2)).0); // value change
    assert!(m.ingest(0, 0, &[10, 21, 5], at(t0, 3)).0); // length growth alone
    assert!(!m.ingest(1, 0, &[10, 21, 5], at(t0, 4)).0); // same values from input 1

    let mut h = merger(MergeMode::Htp, 10, 2);
    assert!(h.ingest(0, 0, &[10], t0).0);
    assert!(!h.ingest(1, 0, &[5], t0).0); // loses the max — output unchanged
    assert!(h.ingest(1, 0, &[50], t0).0); // wins the max
}

#[test]
fn full_512_channel_merge() {
    let t0: u128 = 5_000_000_000;
    let mut m = merger(MergeMode::Htp, 10, 2);
    let a = [100u8; 512];
    let mut b = [0u8; 512];
    b[511] = 255;
    m.ingest(0, 0, &a, t0);
    let out = m.ingest(1, 0, &b, t0).1;
    assert_eq!(out.len(), 512);
    assert_eq!(out[0], 100);
    assert_eq!(out[511], 255);
}

/// Senders are kept per (input, universe), and the first one is reported the
/// moment a second one appears on that pair.
#[test]
fn note_sender_flags_a_second_sender_per_input_and_universe() {
    let ip = |d| Ip::V4(u32::from_be_bytes([10, 0, 0, d]));
    let mut seen = Senders::new();

    // First sender for (input 0, universe 0): nothing to report.
    assert_eq!(note_sender(&mut seen, 0, 0, ip(1)), None);
    // Same sender again: still nothing.
    assert_eq!(note_sender(&mut seen, 0, 0, ip(1)), None);
    // A SECOND sender on the same input+universe: they share a merge lane.
    assert_eq!(note_sender(&mut seen, 0, 0, ip(2)), Some(ip(1)));

    // A different input is tracked separately (that IS the correct setup).
    assert_eq!(note_sender(&mut seen, 1, 0, ip(2)), None);
    // As is a different universe on the same input (no lane is shared).
    assert_eq!(note_sender(&mut seen, 0, 7, ip(2)), None);
}

#[test]
fn interest_all_wants_everything_and_only_is_exact() {
    assert!(Interest::All.wants(0));
    assert!(Interest::All.wants(32_767));
    let only = Interest::only(&[0u16, 4]);
    assert!(only.wants(0));
    assert!(only.wants(4));
    assert!(!only.wants(1));
    assert!(!only.wants(32_767));
    // An empty interest set merges nothing (it must not silently mean
    // "everything").
    assert!(!Interest::only(&[]).wants(0));
}


use neewer_bridge::artnet::{encode_artdmx, parse_artdmx, ArtDmx};
use neewer_bridge::config::Config;
use neewer_bridge::merge::{Handled, InputMismatch, Pipeline, UnknownMergeMode};

fn dmx(port_address: u16, sequence: u8, data: &[u8]) -> ArtDmx {
    ArtDmx { sequence, physical: 0, port_address, data: data.to_vec() }
}

fn merged(h: Handled) -> (Vec<u8>, bool) {
    match h {
        Handled::Merged { data, changed, .. } => (data, changed),
        other => panic!("expected merged data, got {other:?}"),
    }
}

const DESK: Ip = Ip::V4(0x0A00_0001);

/// A packet as it comes off the wire.
fn wire(port_address: u16, sequence: u8, data: &[u8]) -> ArtDmx {
    parse_artdmx(&encode_artdmx(port_address, sequence, data)).unwrap()
}

#[test]
fn serve_all_merges_across_two_sockets() {
    let mut p = Pipeline::new(2, merger(MergeMode::Htp, 10, 2), Interest::All).unwrap();
    assert!(p.prune_enabled());
    let t0 = secs(100);
    // seq 0 = sequencing disabled (keeps the test independent of the sequence filter).
    assert_eq!(merged(p.packet(0, DESK, &wire(0, 0, &[10, 200]), t0)), (vec![10, 200], true));
    let t1 = t0 + millis(150);
    // HTP across the two inputs.
    let both = merged(p.packet(1, DESK, &wire(0, 0, &[20, 100]), t1));
    assert_eq!(both, (vec![20, 200], true));
    let again = merged(p.packet(1, DESK, &wire(0, 0, &[20, 100]), t1));
    assert_eq!(again, (vec![20, 200], false));
}

#[test]
fn serve_all_rejects_a_merger_sized_for_a_different_input_count() {
    let r = Pipeline::new(2, merger(MergeMode::Htp, 10, 1), Interest::All);
    assert!(matches!(r, Err(InputMismatch { inputs: 2, merger: 1 })));
}

#[test]
fn serve_all_merges_only_the_universes_of_interest() {
    let interest = Interest::only(&[0, 3]);
    let mut p = Pipeline::new(1, merger(MergeMode::Ltp, 10, 1), interest).unwrap();
    assert!(!p.prune_enabled());
    let mut log: Vec<(u16, Vec<u8>)> = Vec::new();
    let mut t = secs(100);
    for pa in [0u16, 7, 3, 9] {
        match p.packet(0, DESK, &wire(pa, 0, &[pa as u8, 5]), t) {
            Handled::Merged { data, .. } => log.push((pa, data)),
            Handled::Unmapped => assert!(pa == 7 || pa == 9),
            Handled::Stale => panic!("nothing is stale here"),
        }
        t += millis(150);
    }
    // Only the mapped universes were merged.
    assert_eq!(log, vec![(0, vec![0, 5]), (3, vec![3, 5])]);
}

#[test]
fn serve_all_drops_stale_sequence_per_input() {
    let mut p = Pipeline::new(1, merger(MergeMode::Ltp, 10, 1), Interest::All).unwrap();
    let mut log: Vec<Vec<u8>> = Vec::new();
    let mut t = secs(100);
    // The stale sequence (4 < 5) must be dropped, merged output unchanged.
    for (seq, value) in [(5u8, 50u8), (4, 99), (6, 60)] {
        if let Handled::Merged { data, .. } = p.packet(0, DESK, &wire(0, seq, &[value]), t) {
            log.push(data);
        }
        t += millis(150);
    }
    assert_eq!(log, vec![vec![50], vec![60]]);
}

#[test]
fn every_input_has_a_sequence_of_its_own() {
    let mut p = Pipeline::new(2, merger(MergeMode::Ltp, 10, 2), Interest::All).unwrap();
    let t0 = secs(100);
    assert_eq!(merged(p.packet(0, DESK, &dmx(0, 10, &[1, 1]), t0)).0, vec![1, 1]);
    assert!(matches!(p.packet(0, DESK, &dmx(0, 9, &[9, 9]), t0), Handled::Stale));
    assert!(matches!(p.packet(0, DESK, &dmx(0, 10, &[9, 9]), t0), Handled::Stale));
    // The other input counts for itself.
    assert_eq!(merged(p.packet(1, DESK, &dmx(0, 9, &[2, 2]), t0)).0, vec![2, 2]);
    assert_eq!(merged(p.packet(0, DESK, &dmx(0, 11, &[3, 3]), t0)).0, vec![3, 3]);
}

#[test]
fn a_copied_interest_wants_the_same() {
    let only = Interest::only(&[0, 3]).clone();
    assert!(only.wants(0) && only.wants(3) && !only.wants(7));
    assert!(matches!(Interest::All.clone(), Interest::All));
}

#[test]
fn channels_show_the_extreme_of_the_live_sources() {
    let t0 = secs(100);
    let mut m = merger(MergeMode::Lowest, 10, 3);
    m.ingest(0, 0, &[10, 90], t0);
    m.ingest(1, 0, &[30, 20], at(t0, 6));
    m.ingest(2, 0, &[40], at(t0, 7));
    assert_eq!(m.merged(0).unwrap(), &[10, 20]);
    // Input 0 has fallen silent: what it said stays until the lanes are looked at again.
    assert_eq!(m.prune(at(t0, 11)), vec![0]);
    assert_eq!(m.merged(0).unwrap(), &[30, 20]);
    assert!(m.prune(at(t0, 11)).is_empty());
}

#[test]
fn a_shared_input_is_reported_once_and_a_silent_one_pruned() {
    let mut p = Pipeline::new(2, merger(MergeMode::Htp, 10, 2), Interest::All).unwrap();
    let t0 = secs(100);
    let other = Ip::V4(0x0A00_0002);
    let shared = |h: Handled| match h {
        Handled::Merged { shared, .. } => shared,
        other => panic!("expected merged data, got {other:?}"),
    };
    assert_eq!(shared(p.packet(0, DESK, &dmx(0, 0, &[9, 9]), t0)), None);
    assert_eq!(shared(p.packet(0, other, &dmx(0, 0, &[9, 9]), t0)), Some(DESK));
    assert_eq!(shared(p.packet(0, DESK, &dmx(0, 0, &[9, 9]), t0)), None);
    p.packet(1, DESK, &dmx(0, 0, &[5, 5]), at(t0, 8));
    let changes = p.tick(at(t0, 12));
    assert_eq!(changes.len(), 1);
    assert_eq!(changes[0].0, 0);
    assert_eq!(changes[0].1, vec![5, 5]);
}

#[test]
fn a_merger_is_built_from_the_configuration() {
    let mut cfg = Config::default();
    let m = Merger::configured(&cfg.artnet).unwrap();
    assert_eq!(m.input_count(), 1);
    assert!(m.timeout_enabled());
    cfg.artnet.merge = "average".into();
    assert!(matches!(Merger::configured(&cfg.artnet), Err(UnknownMergeMode)));
}

#[test]
fn past_the_cap_all_universes_are_forgotten() {
    let mut m = merger(MergeMode::Htp, 10, 1);
    for pa in 0..1024u16 {
        m.ingest(0, pa, &[7], secs(1));
    }
    assert_eq!(m.merged(0).unwrap(), &[7]);
    m.ingest(0, 1024, &[8], secs(1));
    assert!(m.merged(0).is_none());
    assert_eq!(m.merged(1024).unwrap(), &[8]);
    let mut seen = Senders::new();
    for pa in 0..1025u16 {
        assert_eq!(note_sender(&mut seen, 0, pa, DESK), None);
    }
    assert_eq!(note_sender(&mut seen, 0, 0, Ip::V4(1)), None);
}
