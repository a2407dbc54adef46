use super::{
    battle_backgrounds, player_input_written, random_battle_settings_and_background,
    settings_and_background_draw, settings_range, spec_settings_and_background, BN6,
    NUM_BATTLE_BACKGROUNDS, ROMOffsets,
};
use crate::battle::{local_tick_result, pending_after, pending_taken, BattleState, LocalTick};
use crate::fastforwarder::{FastforwardError, State};
use crate::input::{Input, InputView, Pair};
use crate::mgba::arm_core::{after_set_pc, thumb_align, CpuState, ARM_PC};
use crate::mgba::machine::{byte_at, bytes_at, word_at, write_bytes, write_half, Core};
use crate::mgba::trapper::{planted, Trap, Trapper};
use crate::negotiation::NegotiationStatus;
use crate::protocol;
use crate::rng::pcg_state;
use rand_pcg::Mcg128Xsl64;
use vstd::prelude::*;

verus! {

/// Memory after one player's input was stored: keys and custom screen state, and the
/// marshaled turn where the input carries one.
pub open spec fn input_applied(bn6: BN6, m: Map<u32, u8>, index: u32, inp: InputView) -> Map<
    u32,
    u8,
> {
    let m1 = player_input_written(
        m,
        (bn6.offsets.ewram.player_input_data_arr + index * 0x08) as u32,
        (bn6.offsets.ewram.battle_state + 0x14 + index) as u32,
        inp.joyflags,
        inp.custom_screen_state,
    );
    if inp.turn.len() == 0 {
        m1
    } else {
        write_bytes(m1, (bn6.offsets.ewram.player_marshaled_state_arr + index * 0x100) as u32, inp.turn)
    }
}

/// Memory after a pair of inputs was stored, the local player's first.
pub open spec fn pair_applied(
    bn6: BN6,
    m: Map<u32, u8>,
    local_index: u32,
    remote_index: u32,
    p: Pair<InputView>,
) -> Map<u32, u8> {
    input_applied(bn6, input_applied(bn6, m, local_index, p.local), remote_index, p.remote)
}

/// The battle's tick counter in memory `m`.
pub open spec fn battle_tick(bn6: BN6, m: Map<u32, u8>) -> u32 {
    word_at(m, (bn6.offsets.ewram.battle_state + 0x60) as u32)
}

/// The CPU after a call was skipped: the program counter moves past the call (two
/// Thumb halfwords) and the pipeline refills.
pub open spec fn after_skip(s: CpuState, m: Map<u32, u8>) -> CpuState {
    after_set_pc(s, m, (s.gprs[ARM_PC as int] as u32 + 4) as u32)
}

/// The CPU with register `r` set to `v`.
pub open spec fn with_gpr(s: CpuState, r: int, v: i32) -> CpuState {
    CpuState { gprs: s.gprs.update(r, v), prefetch: s.prefetch }
}

/// Whether the program counter can move past a call without leaving the address space.
pub open spec fn can_skip(s: CpuState) -> bool {
    (s.gprs[ARM_PC as int] as u32) < u32::MAX - 8
}

/// The error a pair of inputs raises at tick `tick`, if any: both inputs must be for
/// the same tick, and that tick must be the battle's.
pub open spec fn pair_tick_error(tick: u32, p1_tick: u32, p2_tick: u32, local_tick: u32) -> Option<
    FastforwardError,
> {
    if p1_tick != p2_tick {
        Some(
            FastforwardError::PlayerTickMismatch {
                in_battle_tick: tick,
                p1_tick: p1_tick,
                p2_tick: p2_tick,
            },
        )
    } else if local_tick != tick {
        Some(FastforwardError::InputTickMismatch { input_tick: local_tick, in_battle_tick: tick })
    } else {
        None
    }
}

/// Whether a turn fits in a player's marshaled state slot.
pub open spec fn turn_fits(inp: InputView) -> bool {
    inp.turn.len() <= 0x100
}

/// What the game's result register says of the battle just run: 1 is a win, 2 a loss,
/// anything else no result yet.
pub open spec fn spec_battle_result(r0: i32) -> Option<bool> {
    if r0 == 1 {
        Some(true)
    } else if r0 == 2 {
        Some(false)
    } else {
        None
    }
}

/// Whether the last battle was won, read from the game's result register.
pub fn battle_result(r0: i32) -> (res: Option<bool>)
    ensures
        res == spec_battle_result(r0),
{
    match r0 {
        1 => Some(true),
        2 => Some(false),
        _ => None,
    }
}

/// The value the link state check returns to the game: 4 where the match was aborted,
/// else what the game had.
pub fn copy_data_input_state_result(r0: i32, aborted: bool) -> (res: i32)
    ensures
        res == (if aborted {
            4
        } else {
            r0
        }),
{
    if aborted {
        4
    } else {
        r0
    }
}

/// Skips the call the program counter is at.
pub fn skip_call(core: &mut Core)
    requires
        old(core).gba.spec_cpu().wf(),
        can_skip(old(core).gba.spec_cpu()@),
    ensures
        final(core).gba.spec_cpu().wf(),
        final(core).gba.spec_cpu()@ == after_skip(old(core).gba.spec_cpu()@, old(core).memory@),
        final(core).memory == old(core).memory,
        final(core).keys == old(core).keys,
{
    let r15 = core.gba.cpu().gpr(ARM_PC) as u32;
    let pc = r15 + 4;
    assert(pc & 0xffff_fffe <= pc) by (bit_vector);
    core.gba.cpu_mut().set_pc(&core.memory, pc);
}

/// Skips the call that copies the link input, returning 0 from it.
pub fn skip_copy_input_data(core: &mut Core)
    requires
        old(core).gba.spec_cpu().wf(),
        can_skip(old(core).gba.spec_cpu()@),
    ensures
        final(core).gba.spec_cpu().wf(),
        final(core).gba.spec_cpu()@ == after_skip(
            with_gpr(old(core).gba.spec_cpu()@, 0, 0),
            old(core).memory@,
        ),
        final(core).memory == old(core).memory,
        final(core).keys == old(core).keys,
{
    core.gba.cpu_mut().set_gpr(0, 0);
    proof {
        assert(core.gba.spec_cpu()@ == with_gpr(old(core).gba.spec_cpu()@, 0, 0));
        assert(core.gba.spec_cpu()@.gprs[ARM_PC as int] == old(core).gba.spec_cpu()@.gprs[ARM_PC as int]);
    }
    skip_call(core);
}

/// Sets the register that the game reads a return value from.
pub fn set_result_register(core: &mut Core, v: i32)
    requires
        old(core).gba.spec_cpu().wf(),
    ensures
        final(core).gba.spec_cpu().wf(),
        final(core).gba.spec_cpu()@ == with_gpr(old(core).gba.spec_cpu()@, 0, v),
        final(core).memory == old(core).memory,
        final(core).keys == old(core).keys,
{
    core.gba.cpu_mut().set_gpr(0, v);
}

impl BN6 {
    /// Whether every address the hooks touch fits in the address space.
    pub open spec fn hooks_fit(&self) -> bool {
        let e = self.offsets.ewram;
        &&& e.menu_control + 0x2a <= u32::MAX
        &&& e.battle_state + 0x60 <= u32::MAX
        &&& e.player_input_data_arr + 0x10 <= u32::MAX
        &&& e.player_marshaled_state_arr + 0x200 <= u32::MAX
        &&& e.local_marshaled_battle_state + 0x100 <= u32::MAX + 1
        &&& thumb_align(self.offsets.rom.main_read_joyflags) < u32::MAX - 1
        &&& thumb_align(self.offsets.rom.comm_menu_run_chatbox_script_entry) < u32::MAX - 1
    }

    /// Stores player `index`'s input: keys and custom screen state, and the marshaled
    /// turn if the input carries one.
    pub fn apply_input(&self, core: &mut Core, index: u32, inp: &Input)
        requires
            self.hooks_fit(),
            index <= 1,
            turn_fits(inp@),
        ensures
            final(core).memory@ == input_applied(*self, old(core).memory@, index, inp@),
            final(core).gba == old(core).gba,
            final(core).keys == old(core).keys,
    {
        self.set_player_input_state(core, index, inp.joyflags, inp.custom_screen_state);
        if inp.turn.len() != 0 {
            self.set_player_marshaled_battle_state(core, index, inp.turn.as_slice());
        }
    }

    /// Stores a pair of inputs, the local player's first.
    pub fn apply_input_pair(&self, core: &mut Core, local_index: u32, ip: &Pair<Input>)
        requires
            self.hooks_fit(),
            local_index <= 1,
            turn_fits(ip.local@),
            turn_fits(ip.remote@),
        ensures
            final(core).memory@ == pair_applied(
                *self,
                old(core).memory@,
                local_index,
                (1 - local_index) as u32,
                Pair { local: ip.local@, remote: ip.remote@ },
            ),
            final(core).gba == old(core).gba,
            final(core).keys == old(core).keys,
    {
        self.apply_input(core, local_index, &ip.local);
        self.apply_input(core, 1 - local_index, &ip.remote);
    }

    /// Points the CPU at the game's joyflags read, where a fast-forward starts.
    pub fn prepare_for_fastforward(&self, core: &mut Core)
        requires
            self.hooks_fit(),
            old(core).gba.spec_cpu().wf(),
        ensures
            final(core).gba.spec_cpu().wf(),
            final(core).gba.spec_cpu()@ == after_set_pc(
                old(core).gba.spec_cpu()@,
                old(core).memory@,
                self.offsets.rom.main_read_joyflags,
            ),
            final(core).memory == old(core).memory,
            final(core).keys == old(core).keys,
    {
        core.gba.cpu_mut().set_pc(&core.memory, self.offsets.rom.main_read_joyflags);
    }

    /// At the joyflags read during a fast-forward: whether the state now is the committed
    /// state and whether it is the dirty state, which the caller then saves.
    pub fn fastforward_snapshot_points<S>(&self, core: &Core, state: &State<S>) -> (res: (bool, bool))
        requires
            self.hooks_fit(),
        ensures
            res.0 == (battle_tick(*self, core.memory@) == state.spec_commit_time()),
            res.1 == (battle_tick(*self, core.memory@) == state.spec_dirty_time()),
    {
        let tick = self.in_battle_time(core);
        (tick == state.commit_time(), tick == state.dirty_time())
    }

    /// At the joyflags read during a fast-forward: hands the game the local keys of the
    /// next pair, after checking that the pair is for this tick.
    pub fn fastforward_read_joyflags<S>(&self, core: &mut Core, state: &mut State<S>)
        requires
            self.hooks_fit(),
            old(core).gba.spec_cpu().wf(),
        ensures
            final(core).gba.spec_cpu().wf(),
            final(core).memory == old(core).memory,
            final(core).keys == old(core).keys,
            final(state).pairs() == old(state).pairs(),
            final(state).spec_committed_state() == old(state).spec_committed_state(),
            final(state).spec_dirty_state() == old(state).spec_dirty_state(),
            final(state).spec_commit_time() == old(state).spec_commit_time(),
            final(state).spec_dirty_time() == old(state).spec_dirty_time(),
            final(state).spec_local_player_index() == old(state).spec_local_player_index(),
            old(state).pairs().len() == 0 ==> final(core).gba == old(core).gba && final(state).spec_error() == old(state).spec_error(),
            old(state).pairs().len() > 0 ==> ({
                let p = old(state).pairs()[0];
                let tick = battle_tick(*self, old(core).memory@);
                match pair_tick_error(tick, p.local.local_tick, p.remote.local_tick, p.local.local_tick) {
                    Some(e) => final(state).spec_error() == Some(e) && final(core).gba == old(core).gba,
                    None => final(state).spec_error() == old(state).spec_error() && final(core).gba.spec_cpu()@ == with_gpr(old(core).gba.spec_cpu()@, 4, p.local.joyflags as i32),
                }
            }),
    {
        let tick = self.in_battle_time(core);
        let ip = match state.peek_input_pair() {
            Some(ip) => ip,
            None => {
                return;
            },
        };
        if ip.local.local_tick != ip.remote.local_tick {
            state.set_error(
                FastforwardError::PlayerTickMismatch {
                    in_battle_tick: tick,
                    p1_tick: ip.local.local_tick,
                    p2_tick: ip.remote.local_tick,
                },
            );
            return;
        }
        if ip.local.local_tick != tick {
            state.set_error(
                FastforwardError::InputTickMismatch {
                    input_tick: ip.local.local_tick,
                    in_battle_tick: tick,
                },
            );
            return;
        }
        core.gba.cpu_mut().set_gpr(4, ip.local.joyflags as i32);
    }

    /// At the call that copies the link input during a fast-forward: takes the next pair,
    /// skips the call, and stores both inputs after checking that the pair is for this
    /// tick.
    pub fn fastforward_copy_input_data<S>(&self, core: &mut Core, state: &mut State<S>)
        requires
            self.hooks_fit(),
            old(core).gba.spec_cpu().wf(),
            can_skip(old(core).gba.spec_cpu()@),
            old(state).spec_local_player_index() <= 1,
            forall|i: int|
                0 <= i < old(state).pairs().len() ==> turn_fits(#[trigger] old(state).pairs()[i].local)
                    && turn_fits(old(state).pairs()[i].remote),
        ensures
            final(core).gba.spec_cpu().wf(),
            final(core).keys == old(core).keys,
            final(state).spec_committed_state() == old(state).spec_committed_state(),
            final(state).spec_dirty_state() == old(state).spec_dirty_state(),
            final(state).spec_commit_time() == old(state).spec_commit_time(),
            final(state).spec_dirty_time() == old(state).spec_dirty_time(),
            final(state).spec_local_player_index() == old(state).spec_local_player_index(),
            old(state).pairs().len() == 0 ==> final(core).gba == old(core).gba && final(core).memory == old(core).memory && final(state).pairs() == old(state).pairs()
                && final(state).spec_error() == old(state).spec_error(),
            old(state).pairs().len() > 0 ==> ({
                let p = old(state).pairs()[0];
                let tick = battle_tick(*self, old(core).memory@);
                let lpi = old(state).spec_local_player_index() as u32;
                &&& final(state).pairs() == old(state).pairs().drop_first()
                &&& final(core).gba.spec_cpu()@ == after_skip(
                    with_gpr(old(core).gba.spec_cpu()@, 0, 0),
                    old(core).memory@,
                )
                &&& if p.local.local_tick != p.remote.local_tick {
                    final(state).spec_error() == Some(
                        FastforwardError::PlayerTickMismatch {
                            in_battle_tick: tick,
                            p1_tick: p.local.local_tick,
                            p2_tick: p.local.local_tick,
                        },
                    ) && final(core).memory == old(core).memory
                } else if p.local.local_tick != tick {
                    final(state).spec_error() == Some(
                        FastforwardError::InputTickMismatch {
                            input_tick: p.local.local_tick,
                            in_battle_tick: tick,
                        },
                    ) && final(core).memory == old(core).memory
                } else {
                    final(state).spec_error() == old(state).spec_error() && final(core).memory@
                        == pair_applied(*self, old(core).memory@, lpi, (1 - lpi) as u32, p)
                }
            }),
    {
        let tick = self.in_battle_time(core);
        let ghost pairs = state.pairs();
        let ip = match state.pop_input_pair() {
            Some(ip) => ip,
            None => {
                return;
            },
        };
        proof {
            assert(turn_fits(pairs[0].local));
        }
        skip_copy_input_data(core);
        if ip.local.local_tick != ip.remote.local_tick {
            // The report names the local tick twice.
            state.set_error(
                FastforwardError::PlayerTickMismatch {
                    in_battle_tick: tick,
                    p1_tick: ip.local.local_tick,
                    p2_tick: ip.local.local_tick,
                },
            );
            return;
        }
        if ip.local.local_tick != tick {
            state.set_error(
                FastforwardError::InputTickMismatch {
                    input_tick: ip.local.local_tick,
                    in_battle_tick: tick,
                },
            );
            return;
        }
        let local_player_index = state.local_player_index();
        self.apply_input_pair(core, local_player_index as u32, &ip);
    }

    /// At the call that copies the link input during a match: skips it and, once the
    /// battle accepts input, stores the last input pair; the first time it only starts
    /// accepting input.
    pub fn copy_input_data(&self, core: &mut Core, battle_state: &mut BattleState)
        requires
            self.hooks_fit(),
            old(core).gba.spec_cpu().wf(),
            can_skip(old(core).gba.spec_cpu()@),
            old(battle_state).wf(),
            old(battle_state).battle is Some ==> old(battle_state).current().spec_local_player_index() <= 1,
            old(battle_state).battle is Some && old(battle_state).current().spec_is_accepting_input()
                ==> (old(battle_state).current().spec_last_input() matches Some(p) && turn_fits(p.local)
                && turn_fits(p.remote)),
        ensures
            final(core).gba.spec_cpu().wf(),
            final(core).gba.spec_cpu()@ == after_skip(
                with_gpr(old(core).gba.spec_cpu()@, 0, 0),
                old(core).memory@,
            ),
            final(core).keys == old(core).keys,
            final(battle_state).number == old(battle_state).number,
            final(battle_state).won_last_battle == old(battle_state).won_last_battle,
            old(battle_state).battle is None ==> final(battle_state).battle is None && final(core).memory == old(core).memory,
            old(battle_state).battle is Some && !old(battle_state).current().spec_is_accepting_input()
                ==> final(battle_state).battle is Some && final(battle_state).current().spec_is_accepting_input()
                && final(core).memory == old(core).memory,
            old(battle_state).battle is Some && old(battle_state).current().spec_is_accepting_input()
                ==> final(battle_state).battle is Some && final(battle_state).current().spec_last_input() is None
                && final(core).memory@ == pair_applied(
                *self,
                old(core).memory@,
                old(battle_state).current().spec_local_player_index() as u32,
                (1 - old(battle_state).current().spec_local_player_index()) as u32,
                old(battle_state).current().spec_last_input().unwrap(),
            ),
    {
        skip_copy_input_data(core);
        if !battle_state.is_active() {
            return;
        }
        if !battle_state.is_accepting_input() {
            battle_state.mark_accepting_input();
            return;
        }
        let local_player_index = battle_state.local_player_index();
        let ip = match battle_state.take_last_input() {
            Some(ip) => ip,
            None => {
                return;
            },
        };
        self.apply_input_pair(core, local_player_index as u32, &ip);
    }

    /// At the comm menu's battle setup during a match: draws the link battle settings and
    /// background for the match type and stores them.
    pub fn init_link_battle_settings(&self, core: &mut Core, rng: &mut Mcg128Xsl64, match_type: u16)
        requires
            self.hooks_fit(),
        ensures
            ({
                let mt = (match_type & 0xff) as u8;
                exists|draw: u16, bg: int|
                    #![trigger spec_settings_and_background(mt, draw, battle_backgrounds()[bg])]
                    (settings_range(mt) == 0 || draw < settings_range(mt)) && 0 <= bg
                        < NUM_BATTLE_BACKGROUNDS && final(core).memory@ == write_half(
                        old(core).memory@,
                        (self.offsets.ewram.menu_control + 0x2a) as u32,
                        spec_settings_and_background(mt, draw, battle_backgrounds()[bg]),
                    )
            }),
            ({
                let (v, s) = settings_and_background_draw(
                    (match_type & 0xff) as u8,
                    pcg_state(*old(rng)),
                    usize::BITS,
                );
                &&& final(core).memory@ == write_half(
                    old(core).memory@,
                    (self.offsets.ewram.menu_control + 0x2a) as u32,
                    v,
                )
                &&& pcg_state(*final(rng)) == s
            }),
            final(core).gba == old(core).gba,
            final(core).keys == old(core).keys,
    {
        let v = random_battle_settings_and_background(rng, (match_type & 0xff) as u8);
        self.set_link_battle_settings_and_background(core, v);
    }

    /// At the end of the battle's setup: reads the local player's marshaled state, stores
    /// it in the local player's slot, and gives it to be sent to the peer.
    pub fn store_local_init(&self, core: &mut Core, battle_state: &BattleState) -> (res: Vec<u8>)
        requires
            self.hooks_fit(),
            battle_state.battle is Some,
            battle_state.current().spec_local_player_index() <= 1,
        ensures
            res@ == bytes_at(old(core).memory@, self.offsets.ewram.local_marshaled_battle_state, 0x100),
            final(core).memory@ == write_bytes(
                old(core).memory@,
                (self.offsets.ewram.player_marshaled_state_arr
                    + battle_state.current().spec_local_player_index() * 0x100) as u32,
                res@,
            ),
            final(core).gba == old(core).gba,
            final(core).keys == old(core).keys,
    {
        let local_init = self.local_marshaled_battle_state(core);
        let index = battle_state.local_player_index() as u32;
        self.set_player_marshaled_battle_state(core, index, local_init.as_slice());
        local_init
    }

    /// When the peer's init arrives: takes its input delay as the remote delay and stores
    /// its marshaled state in the remote player's slot.
    pub fn store_remote_init(&self, core: &mut Core, battle_state: &mut BattleState, init: protocol::Init)
        requires
            self.hooks_fit(),
            old(battle_state).battle is Some,
            old(battle_state).wf(),
            old(battle_state).current().spec_local_player_index() <= 1,
            self.offsets.ewram.player_marshaled_state_arr + 0x100 + init.marshaled@.len()
                <= u32::MAX + 1,
        ensures
            final(core).memory@ == write_bytes(
                old(core).memory@,
                (self.offsets.ewram.player_marshaled_state_arr
                    + (1 - old(battle_state).current().spec_local_player_index()) * 0x100) as u32,
                init.marshaled@,
            ),
            final(core).gba == old(core).gba,
            final(core).keys == old(core).keys,
            final(battle_state).battle is Some,
            final(battle_state).current().spec_remote_delay() == init.input_delay,
            final(battle_state).current().queue() == old(battle_state).current().queue(),
            final(battle_state).current().spec_local_player_index()
                == old(battle_state).current().spec_local_player_index(),
            final(battle_state).number == old(battle_state).number,
    {
        let index = battle_state.remote_player_index() as u32;
        let marshaled = battle_state.receive_init(init);
        self.set_player_marshaled_battle_state(core, index, marshaled.as_slice());
    }

    /// After the fast-forward of a local tick: keeps the state it committed and the pair it
    /// ended on, and hands the game the local keys of that pair. (The caller loads the
    /// dirty state before.)
    pub fn complete_joyflags_read(
        &self,
        core: &mut Core,
        battle_state: &mut BattleState,
        committed_state: Vec<u8>,
        last_input: Pair<Input>,
    )
        requires
            old(battle_state).battle is Some,
            old(core).gba.spec_cpu().wf(),
        ensures
            final(core).gba.spec_cpu().wf(),
            final(core).gba.spec_cpu()@ == with_gpr(old(core).gba.spec_cpu()@, 4, last_input.local.joyflags as i32),
            final(core).memory == old(core).memory,
            final(core).keys == old(core).keys,
            final(battle_state).battle is Some,
            final(battle_state).current().spec_committed_state() == Some(committed_state@),
            final(battle_state).current().spec_last_input() == Some(
                Pair { local: last_input.local@, remote: last_input.remote@ },
            ),
            final(battle_state).current().queue() == old(battle_state).current().queue(),
            final(battle_state).number == old(battle_state).number,
    {
        let joyflags = last_input.local.joyflags;
        battle_state.complete_fastforward(committed_state, last_input);
        core.gba.cpu_mut().set_gpr(4, joyflags as i32);
    }

    /// At the joyflags read during a match, once a state is committed: counts the pending
    /// turn down, then queues this tick's local input with the keys `joyflags`, the custom
    /// screen state in memory and the turn if it is due, and commits what the queues allow.
    pub fn local_joyflags_tick(&self, core: &Core, battle_state: &mut BattleState, joyflags: u16) -> (res:
        Option<LocalTick>)
        requires
            self.hooks_fit(),
            old(battle_state).battle is Some,
            old(battle_state).wf(),
            old(battle_state).current().spec_committed_state() is Some,
            battle_tick(*self, core.memory@) + old(battle_state).current().queue().delay() <= u32::MAX,
        ensures
            final(battle_state).battle is Some,
            final(battle_state).wf(),
            final(battle_state).number == old(battle_state).number,
            final(battle_state).won_last_battle == old(battle_state).won_last_battle,
            local_tick_result(
                old(battle_state).number,
                old(battle_state).current(),
                final(battle_state).current(),
                battle_tick(*self, core.memory@),
                joyflags,
                byte_at(core.memory@, (self.offsets.ewram.battle_state + 0x11) as u32),
                pending_taken(old(battle_state).current().spec_local_pending_turn()),
                pending_after(old(battle_state).current().spec_local_pending_turn()),
                res,
            ),
    {
        let current_tick = self.in_battle_time(core);
        let turn = battle_state.take_local_pending_turn();
        let custom_screen_state = self.local_custom_screen_state(core);
        battle_state.add_local_input_and_consume(current_tick, joyflags, custom_screen_state, turn)
    }
}

/// What the player's request to connect stands at: none made (the dialog was dismissed),
/// the link code still being typed, or the link code entered.
pub enum ConnectRequestStatus {
    NoRequest,
    Pending,
    InputComplete(String),
}

/// What the comm menu's wait for a friend learns on a frame: with no match going, where
/// the request to connect stands; with a match going, how far its negotiation is.
pub enum WaitForFriendEvent {
    Idle(ConnectRequestStatus),
    Active(NegotiationStatus),
}

/// What the comm menu does next while it waits for a friend.
pub enum CommMenuAction {
    /// Keep waiting.
    Wait,
    /// Start a match with the entered link code.
    StartMatch(String),
    /// Leave matchmaking and go back to the menu.
    DropMatchmaking,
    /// The match is ready: start the battle.
    StartBattle,
    /// The match failed: leave matchmaking and end the match.
    DropMatchmakingAndEndMatch,
}

/// The comm menu's decision on a frame of waiting for a friend.
pub open spec fn spec_wait_for_friend(event: WaitForFriendEvent) -> CommMenuAction {
    match event {
        WaitForFriendEvent::Idle(ConnectRequestStatus::InputComplete(code)) => CommMenuAction::StartMatch(code),
        WaitForFriendEvent::Idle(ConnectRequestStatus::NoRequest) => CommMenuAction::DropMatchmaking,
        WaitForFriendEvent::Idle(ConnectRequestStatus::Pending) => CommMenuAction::Wait,
        WaitForFriendEvent::Active(NegotiationStatus::Ready) => CommMenuAction::StartBattle,
        WaitForFriendEvent::Active(NegotiationStatus::NotReady(_)) => CommMenuAction::Wait,
        WaitForFriendEvent::Active(NegotiationStatus::Failed(_)) => CommMenuAction::DropMatchmakingAndEndMatch,
    }
}

/// Decides what the comm menu does on a frame of waiting for a friend: with no match
/// going, start one once the link code is entered, leave matchmaking if the request was
/// dropped, else wait; with a match going, start the battle once it is ready, leave
/// matchmaking and end the match if it failed, else wait.
pub fn wait_for_friend_action(event: WaitForFriendEvent) -> (res: CommMenuAction)
    ensures
        res == spec_wait_for_friend(event),
{
    match event {
        WaitForFriendEvent::Idle(ConnectRequestStatus::InputComplete(code)) => CommMenuAction::StartMatch(code),
        WaitForFriendEvent::Idle(ConnectRequestStatus::NoRequest) => CommMenuAction::DropMatchmaking,
        WaitForFriendEvent::Idle(ConnectRequestStatus::Pending) => CommMenuAction::Wait,
        WaitForFriendEvent::Active(NegotiationStatus::Ready) => CommMenuAction::StartBattle,
        WaitForFriendEvent::Active(NegotiationStatus::NotReady(_)) => CommMenuAction::Wait,
        WaitForFriendEvent::Active(NegotiationStatus::Failed(_)) => CommMenuAction::DropMatchmakingAndEndMatch,
    }
}

/// The hooks that run a match, each named by the point in the game's code it traps.
#[derive(Clone, Copy, PartialEq, Eq, Structural)]
pub enum MainHook {
    /// At the battle's first copy of the players' inputs.
    BattleInitCopyInputData,
    /// At the local init marshaled at the start of a battle.
    BattleInitMarshalRet,
    /// At a local turn marshaled.
    BattleTurnMarshalRet,
    /// At the game's read of the keys, once per tick.
    MainReadJoyflags,
    /// At the battle's copy of the players' inputs on each tick.
    BattleUpdateCopyInputData,
    /// At the result of a battle step, which tells a battle's end.
    BattleRunUnpausedStepResult,
    /// At a battle starting.
    BattleStartRet,
    /// At a battle ending.
    BattleEndingRet,
    /// At the battle's test of which player is local.
    BattleIsP2,
    /// At the link's answer of which player is local.
    LinkIsP2Ret,
    /// At the state of the link's input copy.
    CopyDataInputStateRet,
    /// At the comm menu's link cable handler, which netplay never reaches.
    CommMenuHandleLinkCableInput,
    /// At the comm menu waiting for a friend.
    CommMenuWaitForFriend,
    /// At the comm menu setting up a link battle.
    CommMenuInitBattle,
    /// At the player cancelling the wait for a friend.
    CommMenuWaitForFriendCancel,
    /// At the comm menu ending a link battle.
    CommMenuEndBattle,
    /// At the comm menu's link cable call during a battle.
    CommMenuInBattleLinkCableInput,
}

/// The hooks that replay committed and predicted inputs while fast-forwarding.
#[derive(Clone, Copy, PartialEq, Eq, Structural)]
pub enum FastforwarderHook {
    /// At the game's read of the keys, once per tick.
    MainReadJoyflags,
    /// At the battle's copy of the players' inputs on each tick.
    BattleUpdateCopyInputData,
    /// At the battle's test of which player is local.
    BattleIsP2,
    /// At the link's answer of which player is local.
    LinkIsP2Ret,
    /// At the comm menu's link cable call during a battle.
    CommMenuInBattleLinkCableInput,
    /// At the state of the link's input copy.
    CopyDataInputStateRet,
}

/// Where each hook of a match is planted, in the order they are planted.
pub open spec fn main_hook_table(o: ROMOffsets) -> Seq<(u32, MainHook)> {
    seq![
        (o.battle_init_call_battle_copy_input_data, MainHook::BattleInitCopyInputData),
        (o.battle_init_marshal_ret, MainHook::BattleInitMarshalRet),
        (o.battle_turn_marshal_ret, MainHook::BattleTurnMarshalRet),
        (o.main_read_joyflags, MainHook::MainReadJoyflags),
        (o.battle_update_call_battle_copy_input_data, MainHook::BattleUpdateCopyInputData),
        (o.battle_run_unpaused_step_cmp_retval, MainHook::BattleRunUnpausedStepResult),
        (o.battle_start_ret, MainHook::BattleStartRet),
        (o.battle_ending_ret, MainHook::BattleEndingRet),
        (o.battle_is_p2_tst, MainHook::BattleIsP2),
        (o.link_is_p2_ret, MainHook::LinkIsP2Ret),
        (o.get_copy_data_input_state_ret, MainHook::CopyDataInputStateRet),
        (o.comm_menu_handle_link_cable_input_entry, MainHook::CommMenuHandleLinkCableInput),
        (o.comm_menu_wait_for_friend_call_comm_menu_handle_link_cable_input, MainHook::CommMenuWaitForFriend),
        (o.comm_menu_init_battle_entry, MainHook::CommMenuInitBattle),
        (o.comm_menu_wait_for_friend_ret_cancel, MainHook::CommMenuWaitForFriendCancel),
        (o.comm_menu_end_battle_entry, MainHook::CommMenuEndBattle),
        (o.comm_menu_in_battle_call_comm_menu_handle_link_cable_input, MainHook::CommMenuInBattleLinkCableInput),
    ]
}

/// Where each hook of a fast-forward is planted, in the order they are planted.
pub open spec fn fastforwarder_hook_table(o: ROMOffsets) -> Seq<(u32, FastforwarderHook)> {
    seq![
        (o.main_read_joyflags, FastforwarderHook::MainReadJoyflags),
        (o.battle_update_call_battle_copy_input_data, FastforwarderHook::BattleUpdateCopyInputData),
        (o.battle_is_p2_tst, FastforwarderHook::BattleIsP2),
        (o.link_is_p2_ret, FastforwarderHook::LinkIsP2Ret),
        (o.comm_menu_in_battle_call_comm_menu_handle_link_cable_input, FastforwarderHook::CommMenuInBattleLinkCableInput),
        (o.get_copy_data_input_state_ret, FastforwarderHook::CopyDataInputStateRet),
    ]
}

impl BN6 {
    /// Where the hooks of a match go, in order.
    pub fn main_hooks(&self) -> (res: Vec<(u32, MainHook)>)
        ensures
            res@ == main_hook_table(self.offsets.rom),
    {
        let o = &self.offsets.rom;
        let mut t: Vec<(u32, MainHook)> = Vec::new();
        t.push((o.battle_init_call_battle_copy_input_data, MainHook::BattleInitCopyInputData));
        t.push((o.battle_init_marshal_ret, MainHook::BattleInitMarshalRet));
        t.push((o.battle_turn_marshal_ret, MainHook::BattleTurnMarshalRet));
        t.push((o.main_read_joyflags, MainHook::MainReadJoyflags));
        t.push((o.battle_update_call_battle_copy_input_data, MainHook::BattleUpdateCopyInputData));
        t.push((o.battle_run_unpaused_step_cmp_retval, MainHook::BattleRunUnpausedStepResult));
        t.push((o.battle_start_ret, MainHook::BattleStartRet));
        t.push((o.battle_ending_ret, MainHook::BattleEndingRet));
        t.push((o.battle_is_p2_tst, MainHook::BattleIsP2));
        t.push((o.link_is_p2_ret, MainHook::LinkIsP2Ret));
        t.push((o.get_copy_data_input_state_ret, MainHook::CopyDataInputStateRet));
        t.push((o.comm_menu_handle_link_cable_input_entry, MainHook::CommMenuHandleLinkCableInput));
        t.push((o.comm_menu_wait_for_friend_call_comm_menu_handle_link_cable_input, MainHook::CommMenuWaitForFriend));
        t.push((o.comm_menu_init_battle_entry, MainHook::CommMenuInitBattle));
        t.push((o.comm_menu_wait_for_friend_ret_cancel, MainHook::CommMenuWaitForFriendCancel));
        t.push((o.comm_menu_end_battle_entry, MainHook::CommMenuEndBattle));
        t.push((o.comm_menu_in_battle_call_comm_menu_handle_link_cable_input, MainHook::CommMenuInBattleLinkCableInput));
        proof {
            assert(t@ =~= main_hook_table(self.offsets.rom));
        }
        t
    }

    /// Where the hooks of a fast-forward go, in order.
    pub fn fastforwarder_hooks(&self) -> (res: Vec<(u32, FastforwarderHook)>)
        ensures
            res@ == fastforwarder_hook_table(self.offsets.rom),
    {
        let o = &self.offsets.rom;
        let mut t: Vec<(u32, FastforwarderHook)> = Vec::new();
        t.push((o.main_read_joyflags, FastforwarderHook::MainReadJoyflags));
        t.push((o.battle_update_call_battle_copy_input_data, FastforwarderHook::BattleUpdateCopyInputData));
        t.push((o.battle_is_p2_tst, FastforwarderHook::BattleIsP2));
        t.push((o.link_is_p2_ret, FastforwarderHook::LinkIsP2Ret));
        t.push((o.comm_menu_in_battle_call_comm_menu_handle_link_cable_input, FastforwarderHook::CommMenuInBattleLinkCableInput));
        t.push((o.get_copy_data_input_state_ret, FastforwarderHook::CopyDataInputStateRet));
        proof {
            assert(t@ =~= fastforwarder_hook_table(self.offsets.rom));
        }
        t
    }

    /// Plants the hooks of a match in the game's code: a trap at each address of
    /// [`main_hook_table`], in order, which a breakpoint there finds with its hook.
    pub fn install_main_hooks(&self, core: &mut Core) -> (res: Trapper<MainHook>)
        ensures
            (res.traps(), final(core).memory@) == planted(
                Map::<u32, Trap<MainHook>>::empty(),
                old(core).memory@,
                main_hook_table(self.offsets.rom),
            ),
            final(core).gba == old(core).gba,
            final(core).keys == old(core).keys,
    {
        let table = self.main_hooks();
        let mut trapper: Trapper<MainHook> = Trapper::new();
        trapper.add_all(core, &table);
        trapper
    }

    /// Plants the hooks of a fast-forward in the game's code: a trap at each address
    /// of [`fastforwarder_hook_table`], in order.
    pub fn install_fastforwarder_hooks(&self, core: &mut Core) -> (res: Trapper<FastforwarderHook>)
        ensures
            (res.traps(), final(core).memory@) == planted(
                Map::<u32, Trap<FastforwarderHook>>::empty(),
                old(core).memory@,
                fastforwarder_hook_table(self.offsets.rom),
            ),
            final(core).gba == old(core).gba,
            final(core).keys == old(core).keys,
    {
        let table = self.fastforwarder_hooks();
        let mut trapper: Trapper<FastforwarderHook> = Trapper::new();
        trapper.add_all(core, &table);
        trapper
    }

}

} // verus!
