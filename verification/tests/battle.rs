use tango::battle::{BattleState, RemoteInput, INPUT_QUEUE_LENGTH, TURN_TICKS};
use tango::input::{Input, Pair};
use tango::protocol;
use tango::replay::{Replay, ReplayError, Writer};

fn packet(number: u8, tick: u32) -> protocol::Input {
    protocol::Input {
        battle_number: number,
        local_tick: tick,
        remote_tick: tick,
        joyflags: 0x10,
        custom_screen_state: 0,
        turn: vec![],
    }
}

#[test]
fn winner_of_last_battle_plays_first() {
    let mut bs = BattleState::new();
    bs.start_battle(2);
    assert_eq!(bs.number, 1);
    assert_eq!(bs.local_player_index(), 1);
    assert_eq!(bs.remote_player_index(), 0);
    bs.end_battle();
    assert!(!bs.is_active());
    bs.set_won_last_battle(true);
    bs.start_battle(2);
    assert_eq!(bs.local_player_index(), 0);
    assert_eq!(bs.remote_player_index(), 1);
}

#[test]
fn remote_inputs_are_filtered_and_bounded() {
    let mut bs = BattleState::new();
    assert!(bs.receive_input(packet(0, 0)) == RemoteInput::NoBattle);
    bs.start_battle(0);
    assert!(bs.receive_input(packet(0, 0)) == RemoteInput::WrongBattle);
    for t in 0..INPUT_QUEUE_LENGTH as u32 {
        assert!(bs.receive_input(packet(1, t)) == RemoteInput::Queued);
    }
    assert!(bs.receive_input(packet(1, 999)) == RemoteInput::Overflowed);
    let b = bs.battle.as_ref().unwrap();
    assert_eq!(b.remote_queue_length(), INPUT_QUEUE_LENGTH);
}

#[test]
fn pending_turn_goes_out_after_turn_ticks() {
    let mut bs = BattleState::new();
    bs.start_battle(0);
    bs.add_local_pending_turn(vec![1, 2, 3]);
    for _ in 0..(TURN_TICKS - 1) {
        assert!(bs.take_local_pending_turn().is_empty());
    }
    assert_eq!(bs.take_local_pending_turn(), vec![1, 2, 3]);
    for _ in 0..200 {
        assert!(bs.take_local_pending_turn().is_empty());
    }
}

#[test]
fn new_pending_turn_restarts_the_count() {
    let mut bs = BattleState::new();
    bs.start_battle(0);
    for _ in 0..100 {
        assert!(bs.take_local_pending_turn().is_empty());
    }
    bs.add_local_pending_turn(vec![7]);
    for _ in 0..10 {
        assert!(bs.take_local_pending_turn().is_empty());
    }
    bs.add_local_pending_turn(vec![8, 9]);
    for _ in 0..(TURN_TICKS - 1) {
        assert!(bs.take_local_pending_turn().is_empty());
    }
    assert_eq!(bs.take_local_pending_turn(), vec![8, 9]);
    assert!(bs.take_local_pending_turn().is_empty());
}

#[test]
fn init_packet_and_remote_delay() {
    let mut bs = BattleState::new();
    bs.start_battle(3);
    let init = bs.init_packet(&[5, 6]);
    assert_eq!(init.battle_number, 1);
    assert_eq!(init.input_delay, 3);
    assert_eq!(init.marshaled, vec![5, 6]);
    let theirs = protocol::Init { battle_number: 1, input_delay: 4, marshaled: vec![7] };
    assert_eq!(bs.receive_init(theirs), vec![7]);
    assert_eq!(bs.battle.as_ref().unwrap().remote_delay(), 4);
}

#[test]
fn local_tick_commits_when_remote_arrives() {
    let mut bs = BattleState::new();
    bs.start_battle(1);
    bs.set_committed_state(vec![0xaa]);
    assert!(bs.has_committed_state());
    bs.fill_input_delay(10);
    let b = bs.battle.as_ref().unwrap();
    assert_eq!(b.local_queue_length(), 1);
    assert_eq!(b.remote_queue_length(), 0);
    let t = bs.add_local_input_and_consume(10, 0x1, 0, vec![]).expect("room");
    assert_eq!(t.input.local_tick, 11);
    assert_eq!(t.input.battle_number, 1);
    assert!(t.commit_pairs.is_empty());
    assert_eq!(t.left.len(), 1);
    assert!(bs.receive_input(packet(1, 10)) == RemoteInput::Queued);
    let t2 = bs.add_local_input_and_consume(11, 0x2, 0, vec![]).expect("room");
    assert_eq!(t2.commit_pairs.len(), 1);
    assert_eq!(t2.commit_pairs[0].local.local_tick, 10);
    assert_eq!(t2.commit_pairs[0].remote.joyflags, 0x10);
    assert_eq!(t2.left.len(), 1);
    assert_eq!(t2.committed_state, vec![0xaa]);
}

fn inp(tick: u32, joyflags: u16, turn: Vec<u8>) -> Input {
    Input { local_tick: tick, remote_tick: tick + 2, joyflags, custom_screen_state: 1, turn }
}

#[test]
fn replay_reads_back_what_was_written() {
    let mut w = Writer::new(1);
    w.write_state(&[1, 2, 3, 4]);
    let p1 = Pair { local: inp(0, 0x11, vec![9; 3]), remote: inp(0, 0x22, vec![]) };
    let p2 = Pair { local: inp(1, 0x33, vec![]), remote: inp(1, 0x44, vec![8]) };
    w.write_input(1, &p1);
    w.write_input(1, &p2);
    let file = w.finish();
    assert_eq!(&file[..5], &[0x54, 0x4f, 0x4f, 0x54, 0x0a]);
    let r = Replay::decode(&file).ok().expect("decode");
    assert_eq!(r.local_player_index, 1);
    assert_eq!(r.state, vec![1, 2, 3, 4]);
    assert_eq!(r.input_pairs.len(), 2);
    assert_eq!(r.input_pairs[0].local.joyflags, 0x11);
    assert_eq!(r.input_pairs[0].remote.joyflags, 0x22);
    assert_eq!(r.input_pairs[0].local.turn, vec![9; 3]);
    assert_eq!(r.input_pairs[1].remote.turn, vec![8]);
    assert_eq!(r.input_pairs[1].local.local_tick, 1);
}

#[test]
fn replay_errors() {
    assert!(matches!(Replay::decode(b"NOPE\x0a"), Err(ReplayError::InvalidHeader)));
    assert!(matches!(Replay::decode(b"TOOT\x09"), Err(ReplayError::InvalidVersion)));
    assert!(matches!(Replay::decode(b"TOOT\x0agarbage"), Err(ReplayError::Decompression)));
    assert!(matches!(Replay::decode(b"TO"), Err(ReplayError::UnexpectedEof)));
    assert!(matches!(Replay::decode(b"TOOT"), Err(ReplayError::UnexpectedEof)));
    let truncated = zstd::stream::encode_all(&[0u8, 5, 0, 0, 0, 1][..], 3).unwrap();
    let mut file = b"TOOT\x0a".to_vec();
    file.extend_from_slice(&truncated);
    assert!(matches!(Replay::decode(&file), Err(ReplayError::UnexpectedEof)));
    let mut w = Writer::new(0);
    w.write_state(&[1, 2, 3]);
    let ok = w.finish();
    let r = Replay::decode(&ok).ok().expect("decode");
    assert!(r.input_pairs.is_empty());
}

#[test]
fn cut_short_replay_is_no_decompression_error() {
    let mut w = Writer::new(0);
    w.write_state(&[1; 40]);
    for t in 0..50u32 {
        let p = Pair { local: inp(t, 1, vec![2; 5]), remote: inp(t, 2, vec![]) };
        w.write_input(0, &p);
    }
    let file = w.finish();
    let full = Replay::decode(&file).ok().expect("decode");
    assert_eq!(full.input_pairs.len(), 50);
    for cut in 1..8usize {
        match Replay::decode(&file[..file.len() - cut]) {
            Ok(r) => assert!(r.input_pairs.len() <= 50),
            Err(e) => assert!(e == ReplayError::UnexpectedEof),
        }
    }
}

#[test]
fn input_waits_until_state_is_committed() {
    let mut bs = BattleState::new();
    assert!(!bs.input_waits_for_commit(&packet(0, 0)));
    bs.start_battle(0);
    assert!(!bs.input_waits_for_commit(&packet(0, 0)));
    assert!(bs.input_waits_for_commit(&packet(1, 0)));
    bs.set_committed_state(vec![1, 2]);
    assert!(!bs.input_waits_for_commit(&packet(1, 0)));
}
