use super::arm_core::ARMCore;
use vstd::prelude::*;

verus! {

/// The Game Boy Advance board: for this library, its CPU.
pub struct GBA {
    arm_core: ARMCore,
}

impl GBA {
    /// The board's CPU.
    pub closed spec fn spec_cpu(&self) -> ARMCore {
        self.arm_core
    }

    /// A board whose CPU has all registers at zero.
    pub fn new() -> (res: GBA)
        ensures
            res.spec_cpu().wf(),
            res.spec_cpu()@.gprs == Seq::new(16, |i: int| 0i32),
    {
        GBA { arm_core: ARMCore::new() }
    }

    pub fn cpu_mut(&mut self) -> (res: &mut ARMCore)
        ensures
            *res == old(self).spec_cpu(),
            final(self).spec_cpu() == *final(res),
    {
        &mut self.arm_core
    }

    pub fn cpu(&self) -> (res: &ARMCore)
        ensures
            *res == self.spec_cpu(),
    {
        &self.arm_core
    }
}

} // verus!
