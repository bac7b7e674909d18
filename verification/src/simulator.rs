//! The driver around the CPU: load a program, step until the run ends.

use vstd::prelude::*;
use crate::cpu::Cpu;
use crate::cpu::CpuView;
use crate::cpu::Status;
use crate::cpu::StepOutcome;
use crate::cpu::advance;
use crate::cpu::cpu_wf;
use crate::cpu::halts;
use crate::cpu::lemma_advance_snoc;
use crate::cpu::lemma_advance_stable;
use crate::cpu::step_done;
use crate::cpu::step_spec;
use crate::error::Error;
use crate::memory::MEMORY_SIZE;

verus! {

/// The whole simulator: one CPU, stepped until the run ends.
pub struct Simulator {
    pub cpu: Cpu,
}

impl View for Simulator {
    type V = CpuView;

    open spec fn view(&self) -> CpuView {
        self.cpu@
    }
}

impl Simulator {
    /// A simulator over a freshly zeroed machine.
    pub fn new() -> (r: Simulator)
        ensures
            cpu_wf(r@),
            r@.pc == 0,
            r@.nop_count == 0,
            forall|i: int| 0 <= i < 32 ==> r@.regs[i] == 0u32,
            forall|i: int| 0 <= i < MEMORY_SIZE ==> r@.mem[i] == 0u8,
            r@.input == Seq::<u8>::empty(),
            r@.output == Seq::<u8>::empty(),
    {
        Simulator { cpu: Cpu::new() }
    }

    /// Loads the program image verbatim at address 0.
    pub fn initialize_memory(&mut self, data: Vec<u8>)
        requires
            cpu_wf(old(self)@),
            data@.len() <= MEMORY_SIZE,
        ensures
            cpu_wf(final(self)@),
            final(self)@.mem == data@ + old(self)@.mem.skip(data@.len() as int),
            final(self)@ == (CpuView { mem: final(self)@.mem, ..old(self)@ }),
    {
        self.cpu.initialize_memory(data)
    }

    /// Steps the machine until the run ends.  On `Ok` the halt heuristic
    /// fired and the final state is the one [`advance`] reaches; on `Err`
    /// an undecodable word was fetched, the error carries it, and the final
    /// state is the state that fetched it.  The run is required never to
    /// touch memory out of bounds (every reachable step outcome is sound),
    /// which is implied by the requirement that it ends.
    pub fn start(&mut self) -> (r: Result<(), Error>)
        requires
            cpu_wf(old(self)@),
            halts(old(self)@),
        ensures
            cpu_wf(final(self)@),
            (match r {
                Ok(_) => exists|n: nat|
                    advance(old(self)@, n) == StepOutcome::Finished(final(self)@),
                Err(e) => exists|n: nat|
                    advance(old(self)@, n) == StepOutcome::Illegal(final(self)@, e.raw_word()),
            }),
    {
        let ghost s0 = self.cpu@;
        let ghost n0 = choose|n: nat| step_done(advance(s0, n));
        let ghost mut k: nat = 0;
        proof {
            assert(step_done(advance(s0, n0)));
        }
        loop
            invariant
                cpu_wf(self.cpu@),
                s0 == old(self)@,
                advance(s0, k) == StepOutcome::Processing(self.cpu@),
                step_done(advance(s0, n0)),
                k <= n0,
            decreases n0 - k,
        {
            proof {
                if k >= n0 {
                    lemma_advance_stable(s0, n0, k);
                    assert(false);
                }
                if step_spec(self.cpu@) is Hazard {
                    lemma_advance_snoc(s0, k, self.cpu@);
                    lemma_advance_stable(s0, k + 1, n0);
                    assert(false);
                }
            }
            let ghost pre = self.cpu@;
            match self.cpu.run() {
                Ok(Status::Processing) => {
                    proof {
                        lemma_advance_snoc(s0, k, pre);
                        k = k + 1;
                    }
                },
                Ok(Status::Finished) => {
                    proof {
                        lemma_advance_snoc(s0, k, pre);
                        assert(advance(s0, k + 1) == StepOutcome::Finished(self.cpu@));
                    }
                    return Ok(());
                },
                Err(e) => {
                    proof {
                        lemma_advance_snoc(s0, k, pre);
                        assert(advance(s0, k + 1) == StepOutcome::Illegal(
                            self.cpu@,
                            e.raw_word(),
                        ));
                    }
                    return Err(e);
                },
            }
        }
    }
}

} // verus!
