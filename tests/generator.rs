use gossip_glomers_rs::host::{interface_position, node_id_from_address};
use gossip_glomers_rs::state::{
    decode_state, encode_state, get_current_time_as_nanosecond_intervals,
    get_global_state_from_stable_storage, intervals_since, load_state, reconcile,
    GeneratorState, UuidError,
};
use gossip_glomers_rs::uuid::{
    assemble, clock_seq_hi_and_reserved, clock_seq_low, identifier, time_hi_and_version,
    time_low, time_mid, UUID,
};

fn state(last_timestamp: u64, sequence: u16, node_id: u64) -> GeneratorState {
    GeneratorState { node_id, last_timestamp, sequence }
}

fn now_intervals() -> u64 {
    let d = std::time::SystemTime::now().duration_since(std::time::UNIX_EPOCH).unwrap();
    (d.as_nanos() / 100) as u64
}

#[test]
fn fields_of_a_timestamp_and_sequence() {
    let ts: u64 = 0x0123_4567_89AB_CDEF;
    assert_eq!(time_low(ts), 0x89AB_CDEF);
    assert_eq!(time_mid(ts), 0x4567);
    assert_eq!(time_hi_and_version(ts), 0x4123);
    assert_eq!(clock_seq_hi_and_reserved(0x1234), 0x92);
    assert_eq!(clock_seq_low(0x1234), 0x34);
    assert_eq!(time_hi_and_version(u64::MAX), 0x4FFF);
    assert_eq!(clock_seq_hi_and_reserved(u16::MAX), 0xBF);
}

#[test]
fn assemble_exact_layout() {
    let id = assemble(0x0123_4567_89AB_CDEF, 0x1234, 0);
    assert_eq!(id, 0x89AB_CDEF_4567_4123_9234_0000_0000_0000);
    let id = assemble(0, 0, 0xDEAD_BEEF);
    assert_eq!(id, 0x0000_0000_0000_4000_8000_DEAD_BEEF_0000);
}

#[test]
fn assemble_decodes_back() {
    let cases: [(u64, u16, u64); 4] = [
        (0, 0, 0),
        (0x0FFF_FFFF_FFFF_FFFF, 0x3FFF, 0xFFFF_FFFF),
        (0x01D9_0000_1234_5678, 0x2A5, 0x1234_5678),
        (17, 1, 2),
    ];
    for (ts, seq, node) in cases {
        let id = assemble(ts, seq, node);
        let t = (((id >> 96) & 0xFFFF_FFFF) | (((id >> 80) & 0xFFFF) << 32) | (((id >> 64) & 0x0FFF) << 48)) as u64;
        let q = ((((id >> 56) & 0x3F) << 8) | ((id >> 48) & 0xFF)) as u16;
        let n = ((id >> 16) & 0xFFFF_FFFF) as u64;
        assert_eq!((t, q, n), (ts, seq, node));
    }
}

#[test]
fn version_and_variant_bits() {
    for (ts, seq, node) in [(0u64, 0u16, 0u64), (u64::MAX, u16::MAX, 0x3FFF), (now_intervals(), 77, 0x0000_3FFF_FFFF_FFFF)] {
        let id = assemble(ts, seq, node);
        assert_eq!((id >> 76) & 0xF, 0b0100);
        assert_eq!((id >> 62) & 0x3, 0b10);
    }
}

#[test]
fn markers_fixed_for_large_node_ids() {
    for node in [0xF000_0000_0000_0000u64, 1u64 << 46, 1u64 << 47, u64::MAX, 0x3a30_303a_3030_0a00] {
        let id = assemble(u64::MAX, u16::MAX, node);
        assert_eq!((id >> 76) & 0xF, 0b0100);
        assert_eq!((id >> 62) & 0x3, 0b10);
        assert_eq!(id >> 48, assemble(u64::MAX, u16::MAX, 0) >> 48);
    }
    assert_eq!(assemble(0, 0, u64::MAX), 0x0000_0000_0000_4000_8000_FFFF_FFFF_0000);
}

#[test]
fn identifier_is_decimal_text() {
    let st = state(0x0123_4567_89AB_CDEF, 0x1234, 0xDEAD_BEEF);
    let value = assemble(st.last_timestamp, st.sequence, 0xDEAD_BEEF);
    let uuid = identifier(&st, 0xDEAD_BEEF);
    assert_eq!(uuid.id, format!("{}", value));
    assert_eq!(uuid.to_string(), uuid.id);
    assert_eq!(identifier(&state(0, 0, 0), 0).id, "302240678275694148452352");
}

#[test]
fn uuid_new_keeps_text() {
    let u = UUID::new("12345".to_string());
    assert_eq!(u.id, "12345");
    assert_eq!(u.to_string(), "12345");
}

#[test]
fn state_text_format() {
    let text = encode_state(&state(16_000_000_000_000_000, 5, 42));
    assert_eq!(text, b"16000000000000000\n5\n42".to_vec());
    let text = encode_state(&state(u64::MAX, u16::MAX, 0));
    assert_eq!(text, b"18446744073709551615\n65535\n0".to_vec());
}

#[test]
fn state_text_round_trip() {
    for st in [state(0, 0, 0), state(u64::MAX, u16::MAX, u64::MAX), state(now_intervals(), 5, 0x3030_3a30_300a)] {
        assert_eq!(decode_state(&encode_state(&st)), Ok(st));
    }
}

#[test]
fn decode_accepts_extra_lines_and_plus_sign() {
    assert_eq!(decode_state(b"10\n2\n3\n"), Ok(state(10, 2, 3)));
    assert_eq!(decode_state(b"+10\n+2\n+3\nignored"), Ok(state(10, 2, 3)));
    assert_eq!(decode_state(b"10\n2\n"), Err(UuidError::CorruptState));
}

#[test]
fn decode_rejects_corrupt_text() {
    assert_eq!(decode_state(b"10\n2"), Err(UuidError::CorruptState));
    assert_eq!(decode_state(b"10"), Err(UuidError::CorruptState));
    assert_eq!(decode_state(b""), Err(UuidError::CorruptState));
    assert_eq!(decode_state(b"1x\n2\n3"), Err(UuidError::CorruptState));
    assert_eq!(decode_state(b"10\n65536\n3"), Err(UuidError::CorruptState));
    assert_eq!(decode_state(b"18446744073709551616\n1\n3"), Err(UuidError::CorruptState));
    assert_eq!(decode_state(b"10\n-1\n3"), Err(UuidError::CorruptState));
    assert_eq!(decode_state(b"+\n1\n3"), Err(UuidError::CorruptState));
    assert_eq!(decode_state(b" 1\n1\n3"), Err(UuidError::CorruptState));
}

#[test]
fn reconcile_advances_only_on_regression() {
    let stored = state(1000, 5, 1);
    assert_eq!(reconcile(stored, 999, 9), state(999, 6, 9));
    assert_eq!(reconcile(stored, 1000, 9), state(1000, 5, 9));
    assert_eq!(reconcile(stored, 5000, 9), state(5000, 5, 9));
    assert_eq!(reconcile(state(1000, u16::MAX, 1), 10, 1), state(10, 0, 1));
}

#[test]
fn commit_then_load_keeps_node_and_sequence() {
    let st = state(now_intervals() - 10, 321, 77);
    let text = encode_state(&st);
    let (loaded, fresh) = get_global_state_from_stable_storage(&text, 77).unwrap();
    assert!(!fresh);
    assert_eq!(loaded.node_id, 77);
    assert_eq!(loaded.sequence, 321);
    assert!(loaded.last_timestamp >= st.last_timestamp);
}

#[test]
fn empty_file_gives_fresh_state() {
    let node_id: u64 = 0x3a30_300a;
    let before = now_intervals();
    let (st, fresh) = get_global_state_from_stable_storage(b"", node_id).unwrap();
    assert!(fresh);
    assert_eq!(st.node_id, node_id);
    assert!(st.last_timestamp >= before);
    let text = String::from_utf8(encode_state(&st)).unwrap();
    let lines: Vec<&str> = text.split('\n').collect();
    assert_eq!(lines.len(), 3);
    assert!(lines.iter().all(|l| !l.is_empty()));
    let uuid = identifier(&st, node_id);
    let value: u128 = uuid.id.parse().unwrap();
    assert_eq!(value & 0xFFFF_FFFF_FFFF, (node_id as u128) << 16);
}

#[test]
fn future_timestamp_advances_sequence() {
    let seeded = now_intervals() + 10_000_000;
    let text = format!("{}\n5\n42", seeded);
    let (st, fresh) = get_global_state_from_stable_storage(text.as_bytes(), 42).unwrap();
    assert!(!fresh);
    assert_eq!(st.sequence, 6);
    assert!(st.last_timestamp < seeded);
    assert_eq!(encode_state(&st), format!("{}\n6\n42", st.last_timestamp).into_bytes());
}

#[test]
fn same_tick_calls_collide() {
    let stored = state(5000, 9, 3);
    let a = reconcile(stored, 5000, 3);
    let b = reconcile(stored, 5000, 3);
    assert_eq!(a.sequence, 9);
    assert_eq!(b.sequence, 9);
    assert_eq!(identifier(&a, 3).id, identifier(&b, 3).id);
}

#[test]
fn corrupt_file_is_reported() {
    assert_eq!(get_global_state_from_stable_storage(b"abc", 1), Err(UuidError::CorruptState));
}

#[test]
fn clock_reads_intervals_since_epoch() {
    let before = now_intervals();
    let t = get_current_time_as_nanosecond_intervals().unwrap();
    let after = now_intervals();
    assert!(before <= t && t <= after);
}

#[test]
fn intervals_since_exact() {
    assert_eq!(intervals_since(1_000, 0), Some(10));
    assert_eq!(intervals_since(1_099, 0), Some(10));
    assert_eq!(intervals_since(550, 50), Some(5));
    assert_eq!(intervals_since(i64::MAX, i64::MIN), Some(184_467_440_737_095_516));
    assert_eq!(intervals_since(-1, 0), None);
}

#[test]
fn load_state_exact() {
    assert_eq!(load_state(b"", 500, 17, 3), Ok((state(500, 17, 3), true)));
    assert_eq!(load_state(b"600\n4\n9", 500, 17, 3), Ok((state(500, 5, 3), false)));
    assert_eq!(load_state(b"400\n4\n9", 500, 17, 3), Ok((state(500, 4, 3), false)));
    assert_eq!(load_state(b"400\n4", 500, 17, 3), Err(UuidError::CorruptState));
}

#[test]
fn empty_file_state_reads_clock() {
    let before = now_intervals();
    let (st, fresh) = get_global_state_from_stable_storage(b"", 99).unwrap();
    let after = now_intervals();
    assert!(fresh);
    assert_eq!(st.node_id, 99);
    assert!(before <= st.last_timestamp && st.last_timestamp <= after);
}

#[test]
fn node_id_folds_address_text() {
    assert_eq!(node_id_from_address(b""), 0);
    assert_eq!(node_id_from_address(b"ab"), 0x6162);
    let text = b"02:42:ac:11:00:02\n";
    let expected = u64::from_be_bytes([b'1', b':', b'0', b'0', b':', b'0', b'2', b'\n']);
    assert_eq!(node_id_from_address(text), expected);
}

#[test]
fn interface_needs_two_entries() {
    assert_eq!(interface_position(0), Err(UuidError::NoNetworkInterface));
    assert_eq!(interface_position(1), Err(UuidError::NoNetworkInterface));
    assert_eq!(interface_position(2), Ok(1));
    assert_eq!(interface_position(7), Ok(1));
}
