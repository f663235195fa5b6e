use neewer_bridge::artnet::{encode_artdmx, parse_artdmx, split_port_address, Ip, SeqTracker};

/// Build a minimal valid ArtDmx datagram for tests.
fn make(seq: u8, sub_uni: u8, net: u8, data: &[u8]) -> Vec<u8> {
    let mut p = Vec::new();
    p.extend_from_slice(b"Art-Net\0");
    p.extend_from_slice(&0x5000u16.to_le_bytes()); // opcode LE
    p.extend_from_slice(&[0x00, 14]); // protver BE
    p.push(seq);
    p.push(0); // physical
    p.push(sub_uni);
    p.push(net);
    p.extend_from_slice(&(data.len() as u16).to_be_bytes()); // length BE
    p.extend_from_slice(data);
    p
}

#[test]
fn parses_valid_packet() {
    let data = [10u8, 20, 30, 40];
    let pkt = parse_artdmx(&make(7, 0x00, 0x00, &data)).unwrap();
    assert_eq!(pkt.sequence, 7);
    assert_eq!(pkt.port_address, 0);
    assert_eq!(pkt.data, data);
}

#[test]
fn port_address_composition() {
    // net=1, sub_uni=0x23 (sub-net 2, universe 3) -> 0x0123 = 291
    let pkt = parse_artdmx(&make(1, 0x23, 0x01, &[1, 2])).unwrap();
    assert_eq!(pkt.port_address, 0x0123);
    assert_eq!(split_port_address(pkt.port_address), (1, 2, 3));
}

#[test]
fn rejects_bad_inputs() {
    // wrong id
    let mut bad = make(1, 0, 0, &[1, 2]);
    bad[0] = b'X';
    assert!(parse_artdmx(&bad).is_none());

    // wrong opcode (flip to 0x2000 ArtPoll)
    let mut poll = make(1, 0, 0, &[1, 2]);
    poll[8..10].copy_from_slice(&0x2000u16.to_le_bytes());
    assert!(parse_artdmx(&poll).is_none());

    // truncated body (claims length 4, only 2 bytes present)
    let mut trunc = make(1, 0, 0, &[1, 2]);
    trunc[16..18].copy_from_slice(&4u16.to_be_bytes());
    assert!(parse_artdmx(&trunc).is_none());

    // too short overall
    assert!(parse_artdmx(&[0u8; 10]).is_none());

    // zero length
    let zero = make(1, 0, 0, &[]);
    assert!(parse_artdmx(&zero).is_none());
}

#[test]
fn accepts_full_512() {
    let data = vec![0xAB; 512];
    let pkt = parse_artdmx(&make(0, 0, 0, &data)).unwrap();
    assert_eq!(pkt.data.len(), 512);
}

#[test]
fn encode_parse_round_trip() {
    let data = [1u8, 2, 3, 4, 5, 6];
    let pkt = parse_artdmx(&encode_artdmx(0x0123, 9, &data)).unwrap();
    assert_eq!(pkt.port_address, 0x0123);
    assert_eq!(pkt.sequence, 9);
    assert_eq!(pkt.data, data);
}

fn ip(last: u8) -> Ip {
    Ip::V4(u32::from_be_bytes([192, 168, 1, last]))
}

/// All packets of a test arrive at one moment.
const NOW: u128 = 7_000_000_000;

#[test]
fn seq_in_order_and_gaps_are_fresh() {
    let mut t = SeqTracker::new();
    assert!(t.is_fresh(ip(1), 0, 1, NOW));
    assert!(t.is_fresh(ip(1), 0, 2, NOW));
    assert!(t.is_fresh(ip(1), 0, 10, NOW)); // gaps (lost packets) are fine
}

#[test]
fn seq_duplicates_and_stale_are_dropped() {
    let mut t = SeqTracker::new();
    assert!(t.is_fresh(ip(1), 0, 50, NOW));
    assert!(!t.is_fresh(ip(1), 0, 50, NOW)); // exact duplicate
    assert!(!t.is_fresh(ip(1), 0, 49, NOW)); // one behind
    assert!(!t.is_fresh(ip(1), 0, 50u8.wrapping_sub(127), NOW)); // far behind (delta 129... wraps ≥128)
    assert!(t.is_fresh(ip(1), 0, 51, NOW)); // stale packets didn't poison the counter
}

#[test]
fn seq_wraps_past_255() {
    let mut t = SeqTracker::new();
    assert!(t.is_fresh(ip(1), 0, 0xFF, NOW));
    // Sender wraps 0xFF → 0x01 (0 is skipped): wrapping distance 2 = fresh.
    assert!(t.is_fresh(ip(1), 0, 0x01, NOW));
    assert!(!t.is_fresh(ip(1), 0, 0xFF, NOW)); // now 0xFF is behind
}

#[test]
fn seq_zero_disables_sequencing() {
    let mut t = SeqTracker::new();
    assert!(t.is_fresh(ip(1), 0, 0, NOW));
    assert!(t.is_fresh(ip(1), 0, 0, NOW)); // always fresh
    // ...and doesn't disturb a real counter on the same key.
    assert!(t.is_fresh(ip(1), 0, 7, NOW));
    assert!(t.is_fresh(ip(1), 0, 0, NOW));
    assert!(!t.is_fresh(ip(1), 0, 6, NOW));
}

#[test]
fn seq_keys_are_independent() {
    let mut t = SeqTracker::new();
    assert!(t.is_fresh(ip(1), 0, 100, NOW));
    assert!(t.is_fresh(ip(2), 0, 5, NOW)); // different source
    assert!(t.is_fresh(ip(1), 1, 5, NOW)); // different port-address
    assert!(!t.is_fresh(ip(1), 0, 99, NOW)); // original key still tracks
}

#[test]
fn seq_idle_reset_resyncs_a_restarted_sender() {
    // Zero idle window = every packet is past the window ⇒ always resync.
    let mut t = SeqTracker::with_idle_reset(0);
    assert!(t.is_fresh(ip(1), 0, 200, NOW));
    assert!(t.is_fresh(ip(1), 0, 1, NOW)); // would be stale, but the key had "idled"
}

#[test]
fn past_the_cap_all_streams_are_forgotten() {
    let mut t = SeqTracker::new();
    for port in 0..1025u16 {
        assert!(t.is_fresh(ip(1), port, 9, NOW));
        // Up to the cap a stream keeps its place.
        assert_eq!(t.is_fresh(ip(1), 0, 8, NOW), port == 1024);
    }
    // The first stream was forgotten, and has begun anew since.
    assert!(t.is_fresh(ip(1), 1, 8, NOW));
}
