use super::arm_core::{ARM_PC, WORD_SIZE_THUMB};
use super::machine::{half_at, write_half, Core};
use std::collections::HashMap;
use vstd::prelude::*;

verus! {

broadcast use vstd::std_specs::hash::group_hash_axioms;

/// The immediate of the breakpoint instruction that a trap is planted as.
pub const TRAPPER_IMM: i32 = 0xef;

/// The Thumb `bkpt #TRAPPER_IMM` instruction.
pub const TRAP_INSTRUCTION: u16 = 0xbeef;

/// A planted trap: what to run when it fires, and the instruction it replaced.
pub struct Trap<H> {
    pub handler: H,
    pub original: u16,
}

/// Breakpoints planted in the game's code, by address.
pub struct Trapper<H> {
    traps: HashMap<u32, Trap<H>>,
}

/// The address of the instruction that raised a breakpoint, given the program counter
/// at that time (two Thumb instructions ahead).
pub open spec fn caller_of(r15: i32) -> u32 {
    (r15 as u32).wrapping_sub((2 * WORD_SIZE_THUMB) as u32)
}

impl<H> Trapper<H> {
    /// The traps by address.
    pub closed spec fn traps(&self) -> Map<u32, Trap<H>> {
        self.traps@
    }

    /// A trapper with no traps.
    pub fn new() -> (res: Trapper<H>)
        ensures
            res.traps() == Map::<u32, Trap<H>>::empty(),
    {
        Trapper { traps: HashMap::new() }
    }

    /// Plants a trap at `addr`: the halfword there is kept as the trap's original
    /// instruction and replaced by the breakpoint.
    pub fn add(&mut self, core: &mut Core, addr: u32, handler: H)
        ensures
            final(self).traps() == old(self).traps().insert(
                addr,
                Trap { handler, original: half_at(old(core).memory@, addr) },
            ),
            final(core).memory@ == write_half(old(core).memory@, addr, TRAP_INSTRUCTION),
            final(core).gba == old(core).gba,
            final(core).keys == old(core).keys,
    {
        let original = core.raw_read_16(addr, -1);
        assert((0xbe00i32 | 0xefi32) as u16 == 0xbeefu16) by (bit_vector);
        core.raw_write_16(addr, -1, (0xbe00 | TRAPPER_IMM) as u16);
        self.traps.insert(addr, Trap { original, handler });
    }

    /// The trap that a breakpoint with immediate `imm`, raised with the program counter
    /// at `r15`, belongs to: none unless `imm` is the trapper's own and a trap was
    /// planted at the raising instruction.
    pub fn trap_for(&self, imm: i32, r15: i32) -> (res: Option<&Trap<H>>)
        ensures
            res matches Some(t) ==> imm == TRAPPER_IMM && self.traps().contains_key(caller_of(r15))
                && *t == self.traps()[caller_of(r15)],
            res is None ==> imm != TRAPPER_IMM || !self.traps().contains_key(caller_of(r15)),
    {
        if imm != TRAPPER_IMM {
            return None;
        }
        let caller = (r15 as u32).wrapping_sub(2 * WORD_SIZE_THUMB);
        self.traps.get(&caller)
    }
}

/// The traps and the memory after planting, in order, a trap for each entry of `table`
/// (an address and its handler), starting from `traps` and `mem`.
pub open spec fn planted<H>(traps: Map<u32, Trap<H>>, mem: Map<u32, u8>, table: Seq<(u32, H)>) -> (
    Map<u32, Trap<H>>,
    Map<u32, u8>,
)
    decreases table.len(),
{
    if table.len() == 0 {
        (traps, mem)
    } else {
        let (t, m) = planted(traps, mem, table.drop_last());
        let (addr, handler) = table.last();
        (
            t.insert(addr, Trap { handler, original: half_at(m, addr) }),
            write_half(m, addr, TRAP_INSTRUCTION),
        )
    }
}

impl<H: Copy> Trapper<H> {
    /// Plants a trap for each entry of `table`, in order; a later entry at the same
    /// address takes the place of an earlier one.
    pub fn add_all(&mut self, core: &mut Core, table: &Vec<(u32, H)>)
        ensures
            (final(self).traps(), final(core).memory@) == planted(
                old(self).traps(),
                old(core).memory@,
                table@,
            ),
            final(core).gba == old(core).gba,
            final(core).keys == old(core).keys,
    {
        let mut i: usize = 0;
        while i < table.len()
            invariant
                i <= table@.len(),
                (self.traps(), core.memory@) == planted(
                    old(self).traps(),
                    old(core).memory@,
                    table@.take(i as int),
                ),
                core.gba == old(core).gba,
                core.keys == old(core).keys,
            decreases table@.len() - i,
        {
            let (addr, handler) = table[i];
            proof {
                assert(table@.take(i + 1).drop_last() =~= table@.take(i as int));
                assert(table@.take(i + 1).last() == table@[i as int]);
            }
            self.add(core, addr, handler);
            i = i + 1;
        }
        proof {
            assert(table@.take(table@.len() as int) =~= table@);
        }
    }
}

/// Planting a table of traps leaves, at the address of an entry that no later entry
/// shares, a trap that runs that entry's handler.
pub proof fn lemma_planted_handler<H>(
    traps: Map<u32, Trap<H>>,
    mem: Map<u32, u8>,
    table: Seq<(u32, H)>,
    i: int,
)
    requires
        0 <= i < table.len(),
        forall|j: int| i < j < table.len() ==> #[trigger] table[j].0 != table[i].0,
    ensures
        planted(traps, mem, table).0.contains_key(table[i].0),
        planted(traps, mem, table).0[table[i].0].handler == table[i].1,
    decreases table.len(),
{
    if i < table.len() - 1 {
        let shorter = table.drop_last();
        assert forall|j: int| i < j < shorter.len() implies #[trigger] shorter[j].0 != shorter[i].0 by {
            assert(shorter[j] == table[j]);
        }
        lemma_planted_handler(traps, mem, shorter, i);
        assert(table.last().0 != table[i].0);
    }
}

/// A trap planted at `addr` is found again by a breakpoint raised there: the
/// instruction that replaced the code is the trapper's breakpoint, and the trap keeps
/// the halfword that stood there before.
pub proof fn lemma_planted_trap_fires<H>(
    before: Trapper<H>,
    after: Trapper<H>,
    mem_before: Map<u32, u8>,
    mem_after: Map<u32, u8>,
    addr: u32,
    handler: H,
)
    requires
        after.traps() == before.traps().insert(
            addr,
            Trap { handler, original: half_at(mem_before, addr) },
        ),
        mem_after == write_half(mem_before, addr, TRAP_INSTRUCTION),
        addr < u32::MAX - 4,
    ensures
        half_at(mem_after, addr) == TRAP_INSTRUCTION,
        after.traps().contains_key(caller_of((addr + 2 * WORD_SIZE_THUMB) as i32)),
        after.traps()[caller_of((addr + 2 * WORD_SIZE_THUMB) as i32)].original == half_at(
            mem_before,
            addr,
        ),
{
    let r15 = (addr + 2 * WORD_SIZE_THUMB) as i32;
    assert(addr < 0xffff_fffbu32 ==> ((addr + 4) as i32) as u32 == (addr + 4) as u32) by (bit_vector);
    assert(caller_of(r15) == addr);
}

} // verus!
