//! The receive loop's integrity check across the instances of an interface.
use saimiris::agent::receiver::{caracat_checksum, checksum, is_valid, is_valid_for_any_instance, ReceiveLoopState};
use saimiris::reply::Reply;

fn reply(probe_id: u16, icmp_type: u8) -> Reply {
    Reply {
        capture_timestamp: 0,
        reply_src_addr: [0; 16],
        reply_dst_addr: [0; 16],
        reply_id: 0,
        reply_size: 0,
        reply_ttl: 0,
        reply_protocol: 1,
        reply_icmp_type: icmp_type,
        reply_icmp_code: 0,
        reply_mpls_labels: vec![],
        probe_src_addr: [0; 16],
        probe_dst_addr: [0, 0, 0, 0, 0, 0, 0, 0, 0, 0, 0xff, 0xff, 8, 8, 4, 4],
        probe_id,
        probe_size: 0,
        probe_ttl: 7,
        probe_protocol: 17,
        probe_src_port: 24000,
        probe_dst_port: 33434,
        quoted_ttl: 1,
        rtt: 0,
    }
}

#[test]
fn checksum_values() {
    assert_eq!(caracat_checksum(0, 0, 0, 0), 65535);
    assert_eq!(caracat_checksum(1, 2, 3, 4), 65525);
    assert_eq!(caracat_checksum(0, 65535, 0, 0), 65535);
    assert_eq!(caracat_checksum(u16::MAX, u32::MAX, u16::MAX, u8::MAX), {
        let sum = (u16::MAX as u32).wrapping_add(u32::MAX).wrapping_add(u16::MAX as u32).wrapping_add(255);
        (65535 - sum % 65535) as u16
    });
    let dst = u32::from_le_bytes([8, 8, 4, 4]);
    assert_eq!(checksum(&reply(0, 11), 20643), caracat_checksum(20643, dst, 24000, 7));
}

#[test]
fn replies_validate_under_their_instance() {
    let id_a = 3u16;
    let id_b = 9u16;
    let good_b = checksum(&reply(0, 11), id_b);
    let r = reply(good_b, 11);
    assert!(is_valid(&r, id_b));
    assert!(!is_valid(&r, id_a));
    assert!(is_valid_for_any_instance(&r, &[id_a, id_b]));
    assert!(!is_valid_for_any_instance(&r, &[id_a]));
    assert!(!is_valid_for_any_instance(&r, &[]));
    assert!(is_valid(&reply(1, 0), id_a));
}

#[test]
fn integrity_demux_counts_the_refused() {
    let good = checksum(&reply(0, 3), 5);
    let mut state = ReceiveLoopState::new(true, vec![4, 5]);
    assert!(state.on_reply(&reply(good, 3)));
    assert!(!state.on_reply(&reply(good.wrapping_add(7), 3)));
    state.on_parse_error();
    assert_eq!(state.counters.received, 2);
    assert_eq!(state.counters.received_invalid, 1);
    assert_eq!(state.counters.received_error, 1);

    let mut open = ReceiveLoopState::new(false, vec![4]);
    assert!(open.on_reply(&reply(good.wrapping_add(7), 3)));
    assert_eq!(open.counters.received_invalid, 0);
}
