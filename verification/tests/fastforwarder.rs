use tango::bn6::{EWRAMOffsets, Offsets, ROMOffsets, BN6};
use tango::fastforwarder::{predict_remote, FastforwardError, State};
use tango::input::{Input, Pair};
use tango::mgba::machine::Core;

fn input(tick: u32, joyflags: u16) -> Input {
    Input { local_tick: tick, remote_tick: tick + 1, joyflags, custom_screen_state: 3, turn: vec![] }
}

fn bn6() -> BN6 {
    BN6 {
        offsets: Offsets {
            ewram: EWRAMOffsets {
                menu_control: 0x0200_0000,
                battle_state: 0x0200_1000,
                local_marshaled_battle_state: 0x0200_2000,
                player_input_data_arr: 0x0200_3000,
                player_marshaled_state_arr: 0x0200_4000,
            },
            rom: ROMOffsets {
                battle_init_call_battle_copy_input_data: 0,
                battle_init_marshal_ret: 0,
                battle_turn_marshal_ret: 0,
                main_read_joyflags: 0x0800_0400,
                battle_update_call_battle_copy_input_data: 0,
                battle_run_unpaused_step_cmp_retval: 0,
                battle_start_ret: 0,
                battle_ending_ret: 0,
                battle_is_p2_tst: 0,
                link_is_p2_ret: 0,
                get_copy_data_input_state_ret: 0,
                comm_menu_handle_link_cable_input_entry: 0,
                comm_menu_wait_for_friend_call_comm_menu_handle_link_cable_input: 0,
                comm_menu_init_battle_entry: 0,
                comm_menu_wait_for_friend_ret_cancel: 0,
                comm_menu_end_battle_entry: 0,
                comm_menu_in_battle_call_comm_menu_handle_link_cable_input: 0,
                comm_menu_run_chatbox_script_entry: 0x0800_1000,
            },
        },
    }
}

#[test]
fn prediction_keeps_only_a_and_b() {
    let last = Input { local_tick: 1, remote_tick: 2, joyflags: 0x3ff, custom_screen_state: 7, turn: vec![1] };
    let p = predict_remote(&input(10, 0), &last);
    assert_eq!(p.joyflags, 0x3);
    assert_eq!(p.local_tick, 10);
    assert_eq!(p.remote_tick, 11);
    assert_eq!(p.custom_screen_state, 7);
    assert!(p.turn.is_empty());
    let last2 = Input { local_tick: 0, remote_tick: 0, joyflags: 0x2, custom_screen_state: 0, turn: vec![] };
    assert_eq!(predict_remote(&input(0, 0), &last2).joyflags, 0x2);
}

#[test]
fn plan_times_and_pairs() {
    let commit = vec![Pair { local: input(100, 1), remote: input(100, 2) }];
    let left = vec![input(101, 4), input(102, 8)];
    let last_remote = input(99, 0x1);
    let (mut st, last): (State<u32>, Pair<Input>) = State::new(0, &commit, &last_remote, &left, 100);
    assert_eq!(st.commit_time(), 101);
    assert_eq!(st.dirty_time(), 102);
    assert_eq!(last.local.local_tick, 102);
    assert_eq!(last.remote.joyflags, 0x1);
    let first = st.peek_input_pair().expect("first");
    assert_eq!(first.remote.joyflags, 2);
    let popped = st.pop_input_pair().expect("pop");
    assert_eq!(popped.local.local_tick, 100);
    assert_eq!(st.pop_input_pair().expect("second").local.local_tick, 101);
    assert_eq!(st.pop_input_pair().expect("third").local.local_tick, 102);
    assert!(st.pop_input_pair().is_none());
    assert!(st.peek_input_pair().is_none());
}

#[test]
fn run_stops_once_both_states_saved() {
    let left = vec![input(5, 0)];
    let (mut st, _): (State<&'static str>, _) = State::new(1, &vec![], &input(0, 0), &left, 5);
    assert_eq!(st.commit_time(), 5);
    assert_eq!(st.dirty_time(), 5);
    assert!(st.needs_frame());
    st.set_committed_state("committed");
    assert!(st.needs_frame());
    st.set_dirty_state("dirty");
    assert!(!st.needs_frame());
    assert_eq!(st.finish().ok(), Some(("committed", "dirty")));
}

#[test]
fn error_stops_the_run() {
    let (mut st, _): (State<u8>, _) = State::new(0, &vec![], &input(0, 0), &vec![input(1, 0)], 1);
    st.set_error(FastforwardError::InputTickMismatch { input_tick: 1, in_battle_tick: 2 });
    assert!(!st.needs_frame());
    assert!(matches!(
        st.finish(),
        Err(FastforwardError::InputTickMismatch { input_tick: 1, in_battle_tick: 2 })
    ));
}

#[test]
fn hooks_during_fastforward() {
    let g = bn6();
    let mut core = Core::new_gba();
    core.raw_write_32(0x0200_1060, -1, 7);
    let commit = vec![Pair { local: input(7, 0x10), remote: input(7, 0x20) }];
    let (mut st, _): (State<u8>, _) = State::new(0, &commit, &input(0, 0), &vec![input(8, 0x40)], 7);
    assert_eq!(g.fastforward_snapshot_points(&core, &st), (false, false));
    g.fastforward_read_joyflags(&mut core, &mut st);
    assert_eq!(core.gba.cpu().gpr(4), 0x10);
    core.gba.cpu_mut().set_gpr(15, 0x0800_0500);
    g.fastforward_copy_input_data(&mut core, &mut st);
    assert_eq!(core.gba.cpu().gpr(0), 0);
    assert_eq!(core.gba.cpu().gpr(15), 0x0800_0506);
    assert_eq!(core.raw_read_16(0x0200_3002, -1), 0x10);
    assert_eq!(core.raw_read_16(0x0200_300a, -1), 0x20);
    assert!(st.needs_frame());
    core.raw_write_32(0x0200_1060, -1, 8);
    assert_eq!(g.fastforward_snapshot_points(&core, &st), (true, true));
    core.raw_write_32(0x0200_1060, -1, 9);
    g.fastforward_read_joyflags(&mut core, &mut st);
    assert!(!st.needs_frame());
    assert!(matches!(
        st.finish(),
        Err(FastforwardError::InputTickMismatch { input_tick: 8, in_battle_tick: 9 })
    ));
}

#[test]
fn prepare_points_at_joyflags_read() {
    let g = bn6();
    let mut core = Core::new_gba();
    g.prepare_for_fastforward(&mut core);
    assert_eq!(core.gba.cpu().gpr(15), 0x0800_0402);
}

#[test]
fn mismatched_pair_ticks_are_reported() {
    let g = bn6();
    let mut core = Core::new_gba();
    core.raw_write_32(0x0200_1060, -1, 7);
    let commit = vec![Pair { local: input(7, 0x10), remote: input(6, 0x20) }];
    let (mut st, _): (State<u8>, _) = State::new(0, &commit, &input(0, 0), &vec![], 7);
    g.fastforward_read_joyflags(&mut core, &mut st);
    assert_eq!(core.gba.cpu().gpr(4), 0);
    assert!(matches!(
        st.finish(),
        Err(FastforwardError::PlayerTickMismatch { in_battle_tick: 7, p1_tick: 7, p2_tick: 6 })
    ));
    let (mut st2, _): (State<u8>, _) = State::new(0, &commit, &input(0, 0), &vec![], 7);
    core.gba.cpu_mut().set_gpr(15, 0x0800_0500);
    g.fastforward_copy_input_data(&mut core, &mut st2);
    assert_eq!(core.raw_read_16(0x0200_3002, -1), 0);
    assert!(matches!(
        st2.finish(),
        Err(FastforwardError::PlayerTickMismatch { in_battle_tick: 7, p1_tick: 7, p2_tick: 7 })
    ));
}
