//! The general-purpose register file.

use vstd::prelude::*;

verus! {

/// Number of general-purpose registers.
pub const REGISTERS_COUNT: u32 = 32;

/// The register file after writing `value` to register `index`: a write to
/// register 0 is silently discarded, every other register takes the value.
pub open spec fn reg_store(regs: Seq<u32>, index: u32, value: u32) -> Seq<u32>
    recommends
        index < regs.len(),
{
    if index == 0 {
        regs
    } else {
        regs.update(index as int, value)
    }
}

/// 32 general-purpose 32-bit registers, indexed 0 to 31, with register 0
/// hardwired to the constant zero.
pub struct XRegisters {
    pub data: Vec<u32>,
}

impl View for XRegisters {
    type V = Seq<u32>;

    open spec fn view(&self) -> Seq<u32> {
        self.data@
    }
}

impl XRegisters {
    pub open spec fn wf(&self) -> bool {
        &&& self@.len() == REGISTERS_COUNT
        &&& self@[0] == 0u32
    }

    /// A register file with every register zeroed.
    pub fn new() -> (r: XRegisters)
        ensures
            r.wf(),
            forall|i: int| 0 <= i < REGISTERS_COUNT ==> r@[i] == 0u32,
    {
        let mut data: Vec<u32> = Vec::new();
        let mut i: u32 = 0;
        while i < REGISTERS_COUNT
            invariant
                i <= REGISTERS_COUNT,
                data@.len() == i,
                forall|j: int| 0 <= j < i ==> data@[j] == 0u32,
            decreases REGISTERS_COUNT - i,
        {
            data.push(0u32);
            i = i + 1;
        }
        XRegisters { data }
    }

    /// Reads register `index`; register 0 always yields 0.
    pub fn read(&self, index: u32) -> (r: u32)
        requires
            self.wf(),
            index < REGISTERS_COUNT,
        ensures
            r == self@[index as int],
            index == 0 ==> r == 0,
    {
        self.data[index as usize]
    }

    /// Writes `value` to register `index`; a write to register 0 is
    /// silently discarded.
    pub fn write(&mut self, index: u32, value: u32)
        requires
            old(self).wf(),
            index < REGISTERS_COUNT,
        ensures
            final(self).wf(),
            final(self)@ == reg_store(old(self)@, index, value),
    {
        if index != 0 {
            self.data[index as usize] = value;
        }
    }
}

/// Register 0 reads as zero no matter what was written to it beforehand.
pub proof fn lemma_x0_always_zero(regs: Seq<u32>, value: u32)
    requires
        regs.len() == REGISTERS_COUNT,
        regs[0] == 0u32,
    ensures
        reg_store(regs, 0, value)[0] == 0u32,
{
}

} // verus!
