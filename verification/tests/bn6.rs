use rand::{Rng, SeedableRng};
use tango::battle::BattleState;
use tango::protocol;
use tango::bn6::hooks::{battle_result, copy_data_input_state_result, skip_call, FastforwarderHook, MainHook};
use tango::bn6::{
    battle_settings_and_background, random_battle_settings_and_background, EWRAMOffsets,
    KnownGame, Offsets, ROMOffsets, BN6, NUM_BATTLE_BACKGROUNDS,
};
use tango::input::{Input, Pair};
use tango::mgba::machine::Core;
use tango::negotiation::seed_match;
use tango::signor::ConnectionSide;

fn offsets(base: u32) -> Offsets {
    Offsets {
        ewram: EWRAMOffsets {
            menu_control: base,
            battle_state: base + 0x1000,
            local_marshaled_battle_state: base + 0x2000,
            player_input_data_arr: base + 0x3000,
            player_marshaled_state_arr: base + 0x4000,
        },
        rom: ROMOffsets {
            battle_init_call_battle_copy_input_data: 0x0800_0100,
            battle_init_marshal_ret: 0x0800_0200,
            battle_turn_marshal_ret: 0x0800_0300,
            main_read_joyflags: 0x0800_0400,
            battle_update_call_battle_copy_input_data: 0x0800_0500,
            battle_run_unpaused_step_cmp_retval: 0x0800_0600,
            battle_start_ret: 0x0800_0700,
            battle_ending_ret: 0x0800_0800,
            battle_is_p2_tst: 0x0800_0900,
            link_is_p2_ret: 0x0800_0a00,
            get_copy_data_input_state_ret: 0x0800_0b00,
            comm_menu_handle_link_cable_input_entry: 0x0800_0c00,
            comm_menu_wait_for_friend_call_comm_menu_handle_link_cable_input: 0x0800_1100,
            comm_menu_init_battle_entry: 0x0800_0d00,
            comm_menu_wait_for_friend_ret_cancel: 0x0800_0e00,
            comm_menu_end_battle_entry: 0x0800_0f00,
            comm_menu_in_battle_call_comm_menu_handle_link_cable_input: 0x0800_1200,
            comm_menu_run_chatbox_script_entry: 0x0800_1000,
        },
    }
}

fn bn6() -> BN6 {
    BN6 { offsets: offsets(0x0200_0000) }
}

#[test]
fn new_finds_first_release_with_title() {
    let known = vec![
        KnownGame { title: "MEGAMAN6_FXX".to_string(), offsets: offsets(0x0200_0000) },
        KnownGame { title: "MEGAMAN6_GXX".to_string(), offsets: offsets(0x0201_0000) },
        KnownGame { title: "MEGAMAN6_GXX".to_string(), offsets: offsets(0x0202_0000) },
    ];
    let g = BN6::new(&"MEGAMAN6_GXX".to_string(), &known).expect("known");
    assert_eq!(g.offsets.ewram.menu_control, 0x0201_0000);
    assert!(BN6::new(&"ROCKEXE6_RXX".to_string(), &known).is_none());
    assert!(BN6::new(&"MEGAMAN6_FXX".to_string(), &vec![]).is_none());
}

#[test]
fn comm_menu_commands() {
    let g = bn6();
    let mut core = Core::new_gba();
    g.start_battle_from_comm_menu(&mut core);
    assert_eq!(core.raw_read_32(0x0200_0000, -1), 0x0000_1818);
    g.drop_matchmaking_from_comm_menu(&mut core, 0);
    assert_eq!(core.raw_read_32(0x0200_0000, -1), 0x0404_3c18);
    assert_eq!(core.gba.cpu().gpr(15), 0);
    core.raw_write_16(0x0800_1000, -1, 0x1234);
    g.drop_matchmaking_from_comm_menu(&mut core, 3);
    assert_eq!(core.gba.cpu().gpr(0), 3);
    assert_eq!(core.gba.cpu().gpr(15), 0x0800_1002);
}

#[test]
fn player_input_state_records_presses_and_releases() {
    let g = bn6();
    let mut core = Core::new_gba();
    let a = 0x0200_3000 + 8;
    core.raw_write_16(a + 2, -1, 0x0003);
    g.set_player_input_state(&mut core, 1, 0x0006, 0x42);
    assert_eq!(core.raw_read_16(a + 2, -1), 0x0006);
    assert_eq!(core.raw_read_16(a + 4, -1), 0x0004);
    assert_eq!(core.raw_read_16(a + 6, -1), 0xfc01);
    assert_eq!(core.raw_read_8(0x0200_1000 + 0x15, -1), 0x42);
    assert_eq!(g.local_custom_screen_state(&core), 0);
}

#[test]
fn marshaled_state_round_trip() {
    let g = bn6();
    let mut core = Core::new_gba();
    let turn: Vec<u8> = (0..=255u8).rev().collect();
    g.set_player_marshaled_battle_state(&mut core, 1, &turn);
    assert_eq!(core.raw_read_range(0x0200_4100, -1, 256), turn);
    core.raw_write_range(0x0200_2000, -1, &turn);
    assert_eq!(g.local_marshaled_battle_state(&core), turn);
}

#[test]
fn settings_match_type_and_time() {
    let g = bn6();
    let mut core = Core::new_gba();
    g.set_link_battle_settings_and_background(&mut core, 0x1165);
    assert_eq!(core.raw_read_16(0x0200_002a, -1), 0x1165);
    core.raw_write_16(0x0200_0012, -1, 2);
    assert_eq!(g.match_type(&core), 2);
    core.raw_write_32(0x0200_1060, -1, 1234);
    assert_eq!(g.in_battle_time(&core), 1234);
}

#[test]
fn settings_and_background_word() {
    assert_eq!(battle_settings_and_background(0, 0x10, 3), 0x0310);
    assert_eq!(battle_settings_and_background(1, 0x5f, 20), 0x135f);
    assert_eq!(battle_settings_and_background(2, 0x43, 2), 0x01a3);
    assert_eq!(battle_settings_and_background(7, 0, 16), 0x1000);
}

#[test]
fn drawn_settings_are_in_range() {
    for b in 0..8u8 {
        let seed: Vec<u8> = (0..16u8).map(|i| i.wrapping_mul(b)).collect();
        let (mut rng, _) = seed_match(&seed, ConnectionSide::Polite);
        for mt in 0..4u8 {
            let v = random_battle_settings_and_background(&mut rng, mt);
            let lo = v & 0xff;
            let hi = v >> 8;
            match mt {
                0 => assert!(lo < 0x44),
                1 => assert!(lo < 0x60),
                2 => assert!(lo >= 0x60 && lo < 0xa4),
                _ => assert_eq!(lo, 0),
            }
            assert!(hi <= 0x13 && hi != 0x02 && hi != 0x12);
            let _ = NUM_BATTLE_BACKGROUNDS;
        }
    }
}

#[test]
fn same_seed_draws_same_settings() {
    let seed = vec![7u8; 16];
    let (mut r1, _) = seed_match(&seed, ConnectionSide::Polite);
    let (mut r2, _) = seed_match(&seed, ConnectionSide::Impolite);
    for mt in 0..3u8 {
        assert_eq!(
            random_battle_settings_and_background(&mut r1, mt),
            random_battle_settings_and_background(&mut r2, mt)
        );
    }
}

#[test]
fn hook_results() {
    assert_eq!(battle_result(1), Some(true));
    assert_eq!(battle_result(2), Some(false));
    assert_eq!(battle_result(0), None);
    assert_eq!(copy_data_input_state_result(2, true), 4);
    assert_eq!(copy_data_input_state_result(2, false), 2);
}

#[test]
fn skip_call_moves_past_the_call() {
    let mut core = Core::new_gba();
    core.gba.cpu_mut().set_gpr(15, 0x0800_2000);
    skip_call(&mut core);
    assert_eq!(core.gba.cpu().gpr(15), 0x0800_2006);
}

#[test]
fn input_pair_is_stored_local_first() {
    let g = bn6();
    let mut core = Core::new_gba();
    let local = Input { local_tick: 5, remote_tick: 4, joyflags: 0x1, custom_screen_state: 1, turn: vec![9, 9] };
    let remote = Input { local_tick: 5, remote_tick: 5, joyflags: 0x2, custom_screen_state: 2, turn: vec![] };
    g.apply_input_pair(&mut core, 1, &Pair { local, remote });
    assert_eq!(core.raw_read_16(0x0200_3000 + 8 + 2, -1), 0x1);
    assert_eq!(core.raw_read_16(0x0200_3000 + 2, -1), 0x2);
    assert_eq!(core.raw_read_8(0x0200_1015, -1), 1);
    assert_eq!(core.raw_read_8(0x0200_1014, -1), 2);
    assert_eq!(core.raw_read_range(0x0200_4100, -1, 3), vec![9, 9, 0]);
    assert_eq!(core.raw_read_8(0x0200_4000, -1), 0);
}

#[test]
fn init_exchange_fills_both_slots() {
    let g = bn6();
    let mut core = Core::new_gba();
    let mine: Vec<u8> = (0..=255u8).collect();
    core.raw_write_range(0x0200_2000, -1, &mine);
    let mut bs = BattleState::new();
    bs.start_battle(2);
    let sent = g.store_local_init(&mut core, &bs);
    assert_eq!(sent, mine);
    assert_eq!(core.raw_read_range(0x0200_4100, -1, 256), mine);
    let theirs = vec![0x5au8; 256];
    g.store_remote_init(&mut core, &mut bs, protocol::Init { battle_number: 1, input_delay: 5, marshaled: theirs.clone() });
    assert_eq!(core.raw_read_range(0x0200_4000, -1, 256), theirs);
    assert_eq!(bs.battle.as_ref().unwrap().remote_delay(), 5);
}

#[test]
fn joyflags_read_completes_with_last_local_keys() {
    let g = bn6();
    let mut core = Core::new_gba();
    let mut bs = BattleState::new();
    bs.start_battle(0);
    let last = Pair {
        local: Input { local_tick: 3, remote_tick: 3, joyflags: 0x81, custom_screen_state: 0, turn: vec![] },
        remote: Input { local_tick: 3, remote_tick: 3, joyflags: 0x2, custom_screen_state: 0, turn: vec![] },
    };
    g.complete_joyflags_read(&mut core, &mut bs, vec![1, 2], last);
    assert_eq!(core.gba.cpu().gpr(4), 0x81);
    assert!(bs.has_committed_state());
    let ip = bs.take_last_input().expect("last input");
    assert_eq!(ip.remote.joyflags, 0x2);
}

#[test]
fn joyflags_tick_queues_local_input_from_memory() {
    let g = bn6();
    let mut core = Core::new_gba();
    core.raw_write_32(0x0200_1060, -1, 40);
    core.raw_write_8(0x0200_1011, -1, 6);
    let mut bs = BattleState::new();
    bs.start_battle(2);
    bs.set_committed_state(vec![1]);
    bs.add_local_pending_turn(vec![4, 4]);
    let t = g.local_joyflags_tick(&core, &mut bs, 0x30).expect("room");
    assert_eq!(t.input.local_tick, 42);
    assert_eq!(t.input.joyflags, 0x30);
    assert_eq!(t.input.custom_screen_state, 6);
    assert!(t.input.turn.is_empty());
    assert!(t.commit_pairs.is_empty());
    assert_eq!(bs.battle.as_ref().unwrap().local_queue_length(), 1);
}

#[test]
fn settings_draw_matches_rand_directly() {
    let backgrounds: [u16; 21] = [
        0x00, 0x01, 0x01, 0x03, 0x04, 0x05, 0x06, 0x07, 0x08, 0x09, 0x0a, 0x0b, 0x0c, 0x0d, 0x0e,
        0x0f, 0x10, 0x11, 0x11, 0x13, 0x13,
    ];
    for b in 0..6u8 {
        let seed: Vec<u8> = (0..16u8).map(|i| i.wrapping_add(b.wrapping_mul(11))).collect();
        let (mut ours, _) = seed_match(&seed, ConnectionSide::Polite);
        let mut theirs = rand_pcg::Mcg128Xsl64::from_seed(seed.clone().try_into().unwrap());
        let _: bool = theirs.gen::<bool>();
        for mt in 0..4u8 {
            let lo = match mt {
                0 => theirs.gen_range(0..0x44u16),
                1 => theirs.gen_range(0..0x60u16),
                2 => theirs.gen_range(0..0x44u16) + 0x60u16,
                _ => 0u16,
            };
            let hi = backgrounds[theirs.gen_range(0..backgrounds.len())];
            assert_eq!(random_battle_settings_and_background(&mut ours, mt), hi << 8 | lo);
        }
    }
}

#[test]
fn main_hooks_are_found_at_their_addresses() {
    let g = bn6();
    let mut core = Core::new_gba();
    core.raw_write_16(0x0800_0400, -1, 0x4770);
    let trapper = g.install_main_hooks(&mut core);
    assert_eq!(g.main_hooks().len(), 17);
    assert_eq!(core.raw_read_16(0x0800_0400, -1), 0xbeef);
    let t = trapper.trap_for(0xef, 0x0800_0404).expect("joyflags hook");
    assert!(t.handler == MainHook::MainReadJoyflags);
    assert_eq!(t.original, 0x4770);
    let t = trapper.trap_for(0xef, 0x0800_1104).expect("wait for friend hook");
    assert!(t.handler == MainHook::CommMenuWaitForFriend);
    let t = trapper.trap_for(0xef, 0x0800_0e04).expect("cancel hook");
    assert!(t.handler == MainHook::CommMenuWaitForFriendCancel);
    assert!(trapper.trap_for(0xef, 0x0800_1004).is_none());
}

#[test]
fn fastforwarder_hooks_are_found_at_their_addresses() {
    let g = bn6();
    let mut core = Core::new_gba();
    let trapper = g.install_fastforwarder_hooks(&mut core);
    assert_eq!(g.fastforwarder_hooks().len(), 6);
    let t = trapper.trap_for(0xef, 0x0800_1204).expect("in-battle link cable hook");
    assert!(t.handler == FastforwarderHook::CommMenuInBattleLinkCableInput);
    let t = trapper.trap_for(0xef, 0x0800_0904).expect("is-p2 hook");
    assert!(t.handler == FastforwarderHook::BattleIsP2);
    assert!(trapper.trap_for(0xef, 0x0800_0104).is_none());
}
