pub mod hooks;

use crate::mgba::arm_core::{after_set_pc, thumb_align};
use crate::mgba::machine::{bytes_at, byte_at, half_at, word_at, write_bytes, write_half, Core};
use crate::rng::{pcg_gen_range_u16, pcg_gen_range_usize, pcg_range_u16, pcg_range_usize, pcg_state};
use rand_pcg::Mcg128Xsl64;
use vstd::prelude::*;

verus! {

/// Where the game keeps the state that netplay reads and writes, in work RAM.
#[derive(Clone, Copy)]
pub struct EWRAMOffsets {
    pub menu_control: u32,
    pub battle_state: u32,
    pub local_marshaled_battle_state: u32,
    pub player_input_data_arr: u32,
    pub player_marshaled_state_arr: u32,
}

/// The instructions in the game's code that netplay traps or jumps to.
#[derive(Clone, Copy)]
pub struct ROMOffsets {
    pub battle_init_call_battle_copy_input_data: u32,
    pub battle_init_marshal_ret: u32,
    pub battle_turn_marshal_ret: u32,
    pub main_read_joyflags: u32,
    pub battle_update_call_battle_copy_input_data: u32,
    pub battle_run_unpaused_step_cmp_retval: u32,
    pub battle_start_ret: u32,
    pub battle_ending_ret: u32,
    pub battle_is_p2_tst: u32,
    pub link_is_p2_ret: u32,
    pub get_copy_data_input_state_ret: u32,
    pub comm_menu_handle_link_cable_input_entry: u32,
    pub comm_menu_wait_for_friend_call_comm_menu_handle_link_cable_input: u32,
    pub comm_menu_init_battle_entry: u32,
    pub comm_menu_wait_for_friend_ret_cancel: u32,
    pub comm_menu_end_battle_entry: u32,
    pub comm_menu_in_battle_call_comm_menu_handle_link_cable_input: u32,
    pub comm_menu_run_chatbox_script_entry: u32,
}

/// The addresses of one release of the game.
#[derive(Clone, Copy)]
pub struct Offsets {
    pub ewram: EWRAMOffsets,
    pub rom: ROMOffsets,
}

/// A release of the game, known by the title in its ROM header.
pub struct KnownGame {
    pub title: String,
    pub offsets: Offsets,
}

/// Index of the first release in `known` whose title is `title`, if any.
pub open spec fn first_title_match(known: Seq<KnownGame>, title: Seq<char>) -> Option<int>
    decreases known.len(),
{
    if known.len() == 0 {
        None
    } else if known[0].title@ == title {
        Some(0)
    } else {
        match first_title_match(known.drop_first(), title) {
            Some(i) => Some(i + 1),
            None => None,
        }
    }
}

/// Memory after the comm menu's control block at `a` is given the four bytes of a command.
pub open spec fn menu_command(m: Map<u32, u8>, a: u32, b0: u8, b1: u8, b2: u8, b3: u8) -> Map<
    u32,
    u8,
> {
    m.insert(a, b0).insert((a + 1) as u32, b1).insert((a + 2) as u32, b2).insert(
        (a + 3) as u32,
        b3,
    )
}

/// Memory after one player's input for a tick was stored: the keys pressed, the keys
/// newly pressed and newly released since the keys held before, and the custom screen
/// state.
pub open spec fn player_input_written(
    m: Map<u32, u8>,
    input_addr: u32,
    state_addr: u32,
    keys_pressed: u16,
    custom_screen_state: u8,
) -> Map<u32, u8> {
    let keys_held = half_at(m, (input_addr + 2) as u32) | 0xfc00u16;
    write_half(
        write_half(
            write_half(m, (input_addr + 2) as u32, keys_pressed),
            (input_addr + 4) as u32,
            !keys_held & keys_pressed,
        ),
        (input_addr + 6) as u32,
        keys_held & !keys_pressed,
    ).insert(state_addr, custom_screen_state)
}

/// The battle backgrounds that a link battle is drawn from.
pub open spec fn battle_backgrounds() -> Seq<u16> {
    seq![
        0x00u16, 0x01, 0x01, 0x03, 0x04, 0x05, 0x06, 0x07, 0x08, 0x09, 0x0a, 0x0b, 0x0c, 0x0d,
        0x0e, 0x0f, 0x10, 0x11, 0x11, 0x13, 0x13,
    ]
}

/// Number of battle backgrounds.
pub const NUM_BATTLE_BACKGROUNDS: usize = 21;

/// The range that the settings draw comes from for a match type: none for an unknown
/// type.
pub open spec fn settings_range(match_type: u8) -> u16 {
    if match_type == 0 || match_type == 2 {
        0x44
    } else if match_type == 1 {
        0x60
    } else {
        0
    }
}

/// The link battle settings and background word: the background in the high byte, the
/// settings in the low byte. Match type 2 uses the settings from `0x60` on.
pub open spec fn spec_settings_and_background(match_type: u8, settings_draw: u16, background: u16) -> u16 {
    let lo: u16 = if match_type == 2 {
        (settings_draw + 0x60) as u16
    } else if match_type == 0 || match_type == 1 {
        settings_draw
    } else {
        0
    };
    ((background << 8u16) | lo) as u16
}

/// Builds the settings and background word from what was drawn: `settings_draw`, below
/// [`settings_range`] of the match type (ignored where that range is empty), and
/// `background_index`, below [`NUM_BATTLE_BACKGROUNDS`].
pub fn battle_settings_and_background(match_type: u8, settings_draw: u16, background_index: usize) -> (res: u16)
    requires
        settings_range(match_type) == 0 || settings_draw < settings_range(match_type),
        background_index < NUM_BATTLE_BACKGROUNDS,
    ensures
        res == spec_settings_and_background(
            match_type,
            settings_draw,
            battle_backgrounds()[background_index as int],
        ),
{
    let backgrounds: [u16; 21] = [
        0x00, 0x01, 0x01, 0x03, 0x04, 0x05, 0x06, 0x07, 0x08, 0x09, 0x0a, 0x0b, 0x0c, 0x0d, 0x0e,
        0x0f, 0x10, 0x11, 0x11, 0x13, 0x13,
    ];
    assert(backgrounds@ =~= battle_backgrounds());
    let lo: u16 = match match_type {
        0 => settings_draw,
        1 => settings_draw,
        2 => settings_draw + 0x60,
        _ => 0,
    };
    let hi = backgrounds[background_index];
    hi << 8u16 | lo
}

/// What drawing the link battle settings and background does to a generator in state
/// `s0` on a target whose pointer width is `pointer_width` bits: first the settings (for
/// match types 0 to 2), then the background; the word drawn and the state left.
pub open spec fn settings_and_background_draw(match_type: u8, s0: u128, pointer_width: u32) -> (
    u16,
    u128,
) {
    let (draw, s1) = if match_type == 0 || match_type == 2 {
        pcg_range_u16(s0, 0x44)
    } else if match_type == 1 {
        pcg_range_u16(s0, 0x60)
    } else {
        (0u16, s0)
    };
    let (bg, s2) = pcg_range_usize(s1, NUM_BATTLE_BACKGROUNDS, pointer_width);
    (spec_settings_and_background(match_type, draw, battle_backgrounds()[bg as int]), s2)
}

/// Draws the link battle settings and background for a match of `match_type`: first the
/// settings (for match types 0 to 2), then the background.
pub fn random_battle_settings_and_background(rng: &mut Mcg128Xsl64, match_type: u8) -> (res: u16)
    ensures
        (res, pcg_state(*final(rng))) == settings_and_background_draw(
            match_type,
            pcg_state(*old(rng)),
            usize::BITS,
        ),
        exists|draw: u16, bg: int|
            (settings_range(match_type) == 0 || draw < settings_range(match_type)) && 0 <= bg
                < NUM_BATTLE_BACKGROUNDS && res == spec_settings_and_background(
                match_type,
                draw,
                battle_backgrounds()[bg],
            ),
{
    let draw: u16 = match match_type {
        0 => pcg_gen_range_u16(rng, 0x44),
        1 => pcg_gen_range_u16(rng, 0x60),
        2 => pcg_gen_range_u16(rng, 0x44),
        _ => 0,
    };
    let bg = pcg_gen_range_usize(rng, NUM_BATTLE_BACKGROUNDS);
    battle_settings_and_background(match_type, draw, bg)
}

/// Netplay support for one release of the game.
#[derive(Clone, Copy)]
pub struct BN6 {
    pub offsets: Offsets,
}

impl BN6 {
    /// Support for the release titled `title`, with the addresses of the first entry of
    /// `known` under that title; none if no entry has it.
    pub fn new(title: &String, known: &Vec<KnownGame>) -> (res: Option<BN6>)
        ensures
            match first_title_match(known@, title@) {
                Some(i) => res == Some(BN6 { offsets: known@[i].offsets }),
                None => res is None,
            },
    {
        let mut i: usize = 0;
        assert(known@.skip(0) =~= known@);
        while i < known.len()
            invariant
                i <= known@.len(),
                first_title_match(known@, title@) == (match first_title_match(
                    known@.skip(i as int),
                    title@,
                ) {
                    Some(j) => Some(j + i),
                    None => None,
                }),
            decreases known@.len() - i,
        {
            assert(known@.skip(i as int).drop_first() =~= known@.skip(i + 1));
            if known[i].title == *title {
                return Some(BN6 { offsets: known[i].offsets });
            }
            i = i + 1;
        }
        None
    }

    /// Tells the comm menu to start the battle.
    pub fn start_battle_from_comm_menu(&self, core: &mut Core)
        requires
            self.offsets.ewram.menu_control + 3 <= u32::MAX,
        ensures
            final(core).memory@ == menu_command(
                old(core).memory@,
                self.offsets.ewram.menu_control,
                0x18,
                0x18,
                0x00,
                0x00,
            ),
            final(core).gba == old(core).gba,
            final(core).keys == old(core).keys,
    {
        let a = self.offsets.ewram.menu_control;
        core.raw_write_8(a + 0x0, -1, 0x18);
        core.raw_write_8(a + 0x1, -1, 0x18);
        core.raw_write_8(a + 0x2, -1, 0x00);
        core.raw_write_8(a + 0x3, -1, 0x00);
    }

    /// Tells the comm menu to drop matchmaking; for a nonzero `typ`, also runs the
    /// chatbox script of that type.
    pub fn drop_matchmaking_from_comm_menu(&self, core: &mut Core, typ: u32)
        requires
            self.offsets.ewram.menu_control + 3 <= u32::MAX,
            old(core).gba.spec_cpu().wf(),
            thumb_align(self.offsets.rom.comm_menu_run_chatbox_script_entry) < u32::MAX - 1,
        ensures
            final(core).memory@ == menu_command(
                old(core).memory@,
                self.offsets.ewram.menu_control,
                0x18,
                0x3c,
                0x04,
                0x04,
            ),
            final(core).gba.spec_cpu().wf(),
            typ == 0 ==> final(core).gba == old(core).gba,
            typ != 0 ==> final(core).gba.spec_cpu()@ == after_set_pc(
                {
                    let s = old(core).gba.spec_cpu()@;
                    crate::mgba::arm_core::CpuState {
                        gprs: s.gprs.update(0, typ as i32),
                        prefetch: s.prefetch,
                    }
                },
                final(core).memory@,
                self.offsets.rom.comm_menu_run_chatbox_script_entry,
            ),
            final(core).keys == old(core).keys,
    {
        let a = self.offsets.ewram.menu_control;
        core.raw_write_8(a + 0x0, -1, 0x18);
        core.raw_write_8(a + 0x1, -1, 0x3c);
        core.raw_write_8(a + 0x2, -1, 0x04);
        core.raw_write_8(a + 0x3, -1, 0x04);
        if typ != 0 {
            let cpu = core.gba.cpu_mut();
            cpu.set_gpr(0, typ as i32);
            cpu.set_pc(&core.memory, self.offsets.rom.comm_menu_run_chatbox_script_entry);
        }
    }

    /// The local player's custom screen state.
    pub fn local_custom_screen_state(&self, core: &Core) -> (res: u8)
        requires
            self.offsets.ewram.battle_state + 0x11 <= u32::MAX,
        ensures
            res == byte_at(core.memory@, (self.offsets.ewram.battle_state + 0x11) as u32),
    {
        core.raw_read_8(self.offsets.ewram.battle_state + 0x11, -1)
    }

    /// The 256 bytes of the local player's marshaled battle state.
    pub fn local_marshaled_battle_state(&self, core: &Core) -> (res: Vec<u8>)
        requires
            self.offsets.ewram.local_marshaled_battle_state + 0x100 <= u32::MAX + 1,
        ensures
            res@ == bytes_at(core.memory@, self.offsets.ewram.local_marshaled_battle_state, 0x100),
    {
        core.raw_read_range(self.offsets.ewram.local_marshaled_battle_state, -1, 0x100)
    }

    /// Stores player `index`'s input for this tick.
    pub fn set_player_input_state(
        &self,
        core: &mut Core,
        index: u32,
        keys_pressed: u16,
        custom_screen_state: u8,
    )
        requires
            self.offsets.ewram.player_input_data_arr + index * 0x08 + 0x06 + 1 <= u32::MAX,
            self.offsets.ewram.battle_state + 0x14 + index <= u32::MAX,
        ensures
            final(core).memory@ == player_input_written(
                old(core).memory@,
                (self.offsets.ewram.player_input_data_arr + index * 0x08) as u32,
                (self.offsets.ewram.battle_state + 0x14 + index) as u32,
                keys_pressed,
                custom_screen_state,
            ),
            final(core).gba == old(core).gba,
            final(core).keys == old(core).keys,
    {
        let a_player_input = self.offsets.ewram.player_input_data_arr + index * 0x08;
        let keys_held = core.raw_read_16(a_player_input + 0x02, -1) | 0xfc00;
        core.raw_write_16(a_player_input + 0x02, -1, keys_pressed);
        core.raw_write_16(a_player_input + 0x04, -1, !keys_held & keys_pressed);
        core.raw_write_16(a_player_input + 0x06, -1, keys_held & !keys_pressed);
        core.raw_write_8(self.offsets.ewram.battle_state + 0x14 + index, -1, custom_screen_state)
    }

    /// Stores player `index`'s marshaled battle state.
    pub fn set_player_marshaled_battle_state(&self, core: &mut Core, index: u32, marshaled: &[u8])
        requires
            self.offsets.ewram.player_marshaled_state_arr + index * 0x100 <= u32::MAX,
            self.offsets.ewram.player_marshaled_state_arr + index * 0x100 + marshaled@.len()
                <= u32::MAX + 1,
        ensures
            final(core).memory@ == write_bytes(
                old(core).memory@,
                (self.offsets.ewram.player_marshaled_state_arr + index * 0x100) as u32,
                marshaled@,
            ),
            final(core).gba == old(core).gba,
            final(core).keys == old(core).keys,
    {
        core.raw_write_range(
            self.offsets.ewram.player_marshaled_state_arr + index * 0x100,
            -1,
            marshaled,
        )
    }

    /// Stores the link battle settings and background.
    pub fn set_link_battle_settings_and_background(&self, core: &mut Core, v: u16)
        requires
            self.offsets.ewram.menu_control + 0x2a <= u32::MAX,
        ensures
            final(core).memory@ == write_half(
                old(core).memory@,
                (self.offsets.ewram.menu_control + 0x2a) as u32,
                v,
            ),
            final(core).gba == old(core).gba,
            final(core).keys == old(core).keys,
    {
        core.raw_write_16(self.offsets.ewram.menu_control + 0x2a, -1, v)
    }

    /// The type of match chosen in the comm menu.
    pub fn match_type(&self, core: &Core) -> (res: u16)
        requires
            self.offsets.ewram.menu_control + 0x12 <= u32::MAX,
        ensures
            res == half_at(core.memory@, (self.offsets.ewram.menu_control + 0x12) as u32),
    {
        core.raw_read_16(self.offsets.ewram.menu_control + 0x12, -1)
    }

    /// The battle's tick counter.
    pub fn in_battle_time(&self, core: &Core) -> (res: u32)
        requires
            self.offsets.ewram.battle_state + 0x60 <= u32::MAX,
        ensures
            res == word_at(core.memory@, (self.offsets.ewram.battle_state + 0x60) as u32),
    {
        core.raw_read_32(self.offsets.ewram.battle_state + 0x60, -1)
    }
}

} // verus!
