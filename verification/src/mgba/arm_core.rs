use super::machine::{half_at, Memory};
use vstd::prelude::*;

verus! {

/// Index of the program counter among the general-purpose registers.
pub const ARM_PC: usize = 15;

/// Size in bytes of one Thumb instruction.
pub const WORD_SIZE_THUMB: u32 = 2;

/// What an ARM core holds: its sixteen general-purpose registers and the two
/// prefetched Thumb halfwords.
pub struct CpuState {
    pub gprs: Seq<i32>,
    pub prefetch: Seq<u32>,
}

/// The program counter `pc` aligned down to a Thumb instruction.
pub open spec fn thumb_align(pc: u32) -> u32 {
    pc & 0xffff_fffe
}

/// The state after the program counter was set to `pc` and the pipeline refilled from
/// `m`: the first prefetch slot holds the instruction at the aligned address, the second
/// the one after it, and the program counter points past the first.
pub open spec fn after_set_pc(s: CpuState, m: Map<u32, u8>, pc: u32) -> CpuState {
    let p = thumb_align(pc);
    CpuState {
        gprs: s.gprs.update(ARM_PC as int, (p + WORD_SIZE_THUMB) as i32),
        prefetch: seq![half_at(m, p) as u32, half_at(m, (p + WORD_SIZE_THUMB) as u32) as u32],
    }
}

/// The ARM7TDMI core of the emulated machine.
pub struct ARMCore {
    gprs: Vec<i32>,
    prefetch: Vec<u32>,
}

impl View for ARMCore {
    type V = CpuState;

    closed spec fn view(&self) -> CpuState {
        CpuState { gprs: self.gprs@, prefetch: self.prefetch@ }
    }
}

impl ARMCore {
    /// Sixteen registers and two prefetch slots.
    pub open spec fn wf(&self) -> bool {
        self@.gprs.len() == 16 && self@.prefetch.len() == 2
    }

    /// A core with every register and both prefetch slots at zero.
    pub fn new() -> (res: ARMCore)
        ensures
            res.wf(),
            res@.gprs == Seq::new(16, |i: int| 0i32),
            res@.prefetch == seq![0u32, 0u32],
    {
        let mut gprs: Vec<i32> = Vec::new();
        let mut i: usize = 0;
        while i < 16
            invariant
                i <= 16,
                gprs@ == Seq::new(i as nat, |k: int| 0i32),
            decreases 16 - i,
        {
            gprs.push(0);
            i = i + 1;
        }
        let prefetch: Vec<u32> = vec![0, 0];
        let res = ARMCore { gprs, prefetch };
        assert(res@.prefetch =~= seq![0u32, 0u32]);
        res
    }

    /// The general-purpose register `r`.
    pub fn gpr(&self, r: usize) -> (res: i32)
        requires
            self.wf(),
            r < 16,
        ensures
            res == self@.gprs[r as int],
    {
        self.gprs[r]
    }

    pub fn set_gpr(&mut self, r: usize, v: i32)
        requires
            old(self).wf(),
            r < 16,
        ensures
            final(self).wf(),
            final(self)@.gprs == old(self)@.gprs.update(r as int, v),
            final(self)@.prefetch == old(self)@.prefetch,
    {
        self.gprs.set(r, v);
    }

    /// Refills the Thumb pipeline from `memory` at the program counter, aligned down,
    /// and moves the program counter past the first prefetched instruction.
    pub fn thumb_write_pc(&mut self, memory: &Memory)
        requires
            old(self).wf(),
            thumb_align(old(self)@.gprs[ARM_PC as int] as u32) < u32::MAX - 1,
        ensures
            final(self).wf(),
            final(self)@ == after_set_pc(
                old(self)@,
                memory@,
                old(self)@.gprs[ARM_PC as int] as u32,
            ),
    {
        let r15 = self.gpr(ARM_PC);
        let mut pc: u32 = (r15 & -(WORD_SIZE_THUMB as i32)) as u32;
        assert(((r15 & -2i32) as u32) == ((r15 as u32) & 0xffff_fffe)) by (bit_vector);
        let first = memory.read_16(pc) as u32;
        self.prefetch.set(0, first);
        pc = pc + WORD_SIZE_THUMB;
        let second = memory.read_16(pc) as u32;
        self.prefetch.set(1, second);
        self.set_gpr(ARM_PC, pc as i32);
        assert(self@.prefetch =~= after_set_pc(
            old(self)@,
            memory@,
            old(self)@.gprs[ARM_PC as int] as u32,
        ).prefetch);
    }

    /// Jumps to the Thumb instruction at `pc`.
    pub fn set_pc(&mut self, memory: &Memory, pc: u32)
        requires
            old(self).wf(),
            thumb_align(pc) < u32::MAX - 1,
        ensures
            final(self).wf(),
            final(self)@ == after_set_pc(old(self)@, memory@, pc),
    {
        self.set_gpr(ARM_PC, pc as i32);
        assert((pc as i32) as u32 == pc) by (bit_vector);
        self.thumb_write_pc(memory);
        assert(self@.gprs =~= after_set_pc(old(self)@, memory@, pc).gprs);
    }
}

} // verus!
