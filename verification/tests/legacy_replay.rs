use tango::replay::legacy::{init_indices_valid, LegacyReplay};
use tango::replay::ReplayError;

fn le32(v: u32) -> Vec<u8> {
    v.to_le_bytes().to_vec()
}

fn file(first_index: u8, second_index: u8, lpi: u8, records: &[u8]) -> Vec<u8> {
    let mut b = b"TOOT\x09".to_vec();
    b.push(first_index);
    b.extend(le32(2));
    b.extend([0xa1, 0xa2]);
    b.push(second_index);
    b.extend(le32(1));
    b.push(0xb1);
    b.push(lpi);
    b.extend(le32(3));
    b.extend([7, 8, 9]);
    b.extend_from_slice(records);
    b
}

fn record(tick: u32, p1: u16, p2: u16, turn1: &[u8]) -> Vec<u8> {
    let mut r = le32(tick);
    r.extend(le32(tick + 1));
    r.extend(p1.to_le_bytes());
    r.extend(p2.to_le_bytes());
    r.extend([1, 2]);
    r.extend(le32(turn1.len() as u32));
    r.extend_from_slice(turn1);
    r.extend(le32(0));
    r
}

#[test]
fn reads_inits_state_and_records() {
    let mut recs = record(5, 0x10, 0x20, &[3, 3]);
    recs.extend(record(6, 0x11, 0x21, &[]));
    recs.extend([0, 0]);
    let b = file(1, 0, 0, &recs);
    assert!(init_indices_valid(&b));
    let r = LegacyReplay::decode(&b).ok().expect("decode");
    assert_eq!(r.p1_init, vec![0xb1]);
    assert_eq!(r.p2_init, vec![0xa1, 0xa2]);
    assert_eq!(r.local_player_index, 0);
    assert_eq!(r.state, vec![7, 8, 9]);
    assert_eq!(r.input_pairs.len(), 2);
    assert_eq!(r.input_pairs[0].local.joyflags, 0x10);
    assert_eq!(r.input_pairs[0].remote.joyflags, 0x20);
    assert_eq!(r.input_pairs[0].local.turn, vec![3, 3]);
    assert_eq!(r.input_pairs[1].local.local_tick, 6);
}

#[test]
fn same_index_twice_keeps_later_block() {
    let b = file(0, 0, 1, &[]);
    let r = LegacyReplay::decode(&b).ok().expect("decode");
    assert_eq!(r.p1_init, vec![0xb1]);
    assert!(r.p2_init.is_empty());
    assert_eq!(r.local_player_index, 1);
}

#[test]
fn legacy_errors() {
    assert!(matches!(LegacyReplay::decode(b"TOOX\x09"), Err(ReplayError::InvalidHeader)));
    assert!(matches!(LegacyReplay::decode(b"TOOT\x0a"), Err(ReplayError::InvalidVersion)));
    assert!(matches!(LegacyReplay::decode(b"TOOT"), Err(ReplayError::UnexpectedEof)));
    let b = file(0, 1, 0, &[]);
    assert!(matches!(LegacyReplay::decode(&b[..b.len() - 1]), Err(ReplayError::UnexpectedEof)));
    let cut = record(1, 0, 0, &[9, 9, 9]);
    let b = file(0, 1, 0, &cut[..cut.len() - 2]);
    assert!(matches!(LegacyReplay::decode(&b), Err(ReplayError::UnexpectedEof)));
}

#[test]
fn init_index_out_of_range_is_detected() {
    assert!(!init_indices_valid(&file(2, 0, 0, &[])));
    assert!(!init_indices_valid(&file(0, 7, 0, &[])));
    assert!(init_indices_valid(b"TOOT\x09\x05"));
    assert!(init_indices_valid(b"nope"));
}

#[test]
fn short_tail_after_records_is_ignored_and_long_cut_record_fails() {
    let mut recs = record(5, 0x10, 0x20, &[1]);
    recs.extend([0xff, 0xff, 0xff]);
    let r = LegacyReplay::decode(&file(0, 1, 1, &recs)).ok().expect("decode");
    assert_eq!(r.input_pairs.len(), 1);
    assert_eq!(r.input_pairs[0].remote.joyflags, 0x10);
    assert_eq!(r.input_pairs[0].local.joyflags, 0x20);
    let mut recs = record(5, 0x10, 0x20, &[1]);
    recs.extend([0, 0, 0, 0]);
    assert!(matches!(LegacyReplay::decode(&file(0, 1, 1, &recs)), Err(ReplayError::UnexpectedEof)));
}
