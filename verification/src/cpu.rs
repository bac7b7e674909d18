//! The fetch-decode-execute engine.
//!
//! The machine's behaviour is pinned down by a mathematical interpreter:
//! [`exec_spec`] gives the effect of one decoded instruction on the whole
//! machine state, [`step_spec`] gives the outcome of one fetch-decode-execute
//! step, and [`advance`] iterates steps.  The executable engine is proved to
//! implement that interpreter exactly.

use vstd::prelude::*;
use crate::error::Error;
use crate::instruction::Instruction;
use crate::instruction::spec_decode;
use crate::instruction::inst_wf;
use crate::memory::Memory;
use crate::memory::MEMORY_SIZE;
use crate::memory::word_at;
use crate::memory::store_word;
use crate::serial::Serial;
use crate::serial::SERIAL_ADDRESS;
use crate::serial::input_word;
use crate::serial::input_rest;
use crate::serial::word_to_bytes;
use crate::x_registers::XRegisters;
use crate::x_registers::reg_store;

verus! {

/// How many consecutive no-op decodes stop the run.
pub const NOP_LIMIT: u8 = 5;

/// What a step reports to the driver: keep stepping, or the run is over.
#[derive(Clone, Copy, Debug, PartialEq, Eq, Structural)]
pub enum Status {
    Processing,
    Finished,
}

/// The mathematical state of the whole machine: program counter, register
/// file, memory, the serial device's pending input and emitted output, and
/// the consecutive-no-op counter of the halt heuristic.
#[verifier::ext_equal]
pub ghost struct CpuView {
    pub pc: u32,
    pub regs: Seq<u32>,
    pub mem: Seq<u8>,
    pub input: Seq<u8>,
    pub output: Seq<u8>,
    pub nop_count: u8,
}

/// The outcome of one fetch-decode-execute step.  `Hazard` marks the states
/// the machine must not be driven into: a fetch or a data access past the
/// end of memory, a documented caller obligation rather than a checked
/// fault.
pub ghost enum StepOutcome {
    /// The step executed an instruction; the run goes on from this state.
    Processing(CpuView),
    /// The halt heuristic fired; the run is over in this state.
    Finished(CpuView),
    /// The fetched word decodes to nothing; the state is left unchanged.
    Illegal(CpuView, u32),
    /// The step would touch memory out of bounds.
    Hazard,
}

/// The single CPU: the program counter, the owned register file, memory and
/// serial device, and the halt heuristic's counter.
pub struct Cpu {
    pub pc: u32,
    pub x_registers: XRegisters,
    pub memory: Memory,
    pub serial: Serial,
    pub nop_count: u8,
}

impl View for Cpu {
    type V = CpuView;

    open spec fn view(&self) -> CpuView {
        CpuView {
            pc: self.pc,
            regs: self.x_registers@,
            mem: self.memory@,
            input: self.serial.input@,
            output: self.serial.output@,
            nop_count: self.nop_count,
        }
    }
}

/// Well-formedness of a machine state: 32 registers with register 0 zero, a
/// full-capacity memory, and a no-op counter at most the halt threshold.
pub open spec fn cpu_wf(s: CpuView) -> bool {
    &&& s.regs.len() == 32
    &&& s.regs[0] == 0u32
    &&& s.mem.len() == MEMORY_SIZE
    &&& s.nop_count <= NOP_LIMIT
}

/// A 12-bit immediate sign-extended to 32 bits: bit 11 is the sign bit; if
/// set, bits 12 to 31 are filled with 1.
pub open spec fn sign_extend_12(imm: u32) -> u32 {
    if imm & 0x800 != 0 {
        imm | 0xfffff000
    } else {
        imm
    }
}

/// A 13-bit branch immediate sign-extended to 32 bits: bit 12 is the sign
/// bit; if set, bits 13 to 31 are filled with 1.
pub open spec fn sign_extend_13(imm: u32) -> u32 {
    if imm & 0x1000 != 0 {
        imm | 0xffffe000
    } else {
        imm
    }
}

/// The effective address of a load or store: the first source register plus
/// the sign-extended 12-bit immediate, with wraparound.
pub open spec fn effective_address(s: CpuView, rs1: u32, imm: u32) -> u32 {
    s.regs[rs1 as int].wrapping_add(sign_extend_12(imm))
}

/// The state after writing `value` to register `rd` and advancing the
/// program counter by 4.
pub open spec fn write_and_advance(s: CpuView, rd: u32, value: u32) -> CpuView {
    CpuView { regs: reg_store(s.regs, rd, value), pc: s.pc.wrapping_add(4), ..s }
}

/// Whether executing `inst` in state `s` touches only the serial port or
/// memory within capacity.  Only loads and stores can go wrong.
pub open spec fn exec_safe(s: CpuView, inst: Instruction) -> bool {
    match inst {
        Instruction::Lw { rd, rs1, imm } => {
            let addr = effective_address(s, rs1, imm);
            addr == SERIAL_ADDRESS || addr + 4 <= MEMORY_SIZE
        },
        Instruction::Sw { rs1, rs2, imm } => {
            let addr = effective_address(s, rs1, imm);
            addr == SERIAL_ADDRESS || addr + 4 <= MEMORY_SIZE
        },
        _ => true,
    }
}

/// The semantic effect of one decoded instruction on the machine state.
/// All register arithmetic wraps around modulo 2^32; every variant but the
/// branch leaves the program counter exactly 4 past its old value.
pub open spec fn exec_spec(s: CpuView, inst: Instruction) -> CpuView {
    match inst {
        Instruction::Add { rd, rs1, rs2 } => write_and_advance(
            s,
            rd,
            s.regs[rs1 as int].wrapping_add(s.regs[rs2 as int]),
        ),
        Instruction::Sub { rd, rs1, rs2 } => write_and_advance(
            s,
            rd,
            s.regs[rs1 as int].wrapping_sub(s.regs[rs2 as int]),
        ),
        Instruction::Or { rd, rs1, rs2 } => write_and_advance(
            s,
            rd,
            s.regs[rs1 as int] | s.regs[rs2 as int],
        ),
        Instruction::And { rd, rs1, rs2 } => write_and_advance(
            s,
            rd,
            s.regs[rs1 as int] & s.regs[rs2 as int],
        ),
        Instruction::Addi { rd, rs1, imm } => write_and_advance(
            s,
            rd,
            s.regs[rs1 as int].wrapping_add(sign_extend_12(imm)),
        ),
        Instruction::Slli { rd, rs1, imm } => write_and_advance(
            s,
            rd,
            s.regs[rs1 as int] << (imm & 0b11111),
        ),
        Instruction::Beq { rs1, rs2, imm } => CpuView {
            pc: if s.regs[rs1 as int] == s.regs[rs2 as int] {
                s.pc.wrapping_add(sign_extend_13(imm))
            } else {
                s.pc.wrapping_add(4)
            },
            ..s
        },
        Instruction::Lw { rd, rs1, imm } => {
            let addr = effective_address(s, rs1, imm);
            if addr == SERIAL_ADDRESS {
                CpuView {
                    regs: reg_store(s.regs, rd, input_word(s.input)),
                    input: input_rest(s.input),
                    pc: s.pc.wrapping_add(4),
                    ..s
                }
            } else {
                write_and_advance(s, rd, word_at(s.mem, addr))
            }
        },
        Instruction::Sw { rs1, rs2, imm } => {
            let addr = effective_address(s, rs1, imm);
            let value = s.regs[rs2 as int];
            if addr == SERIAL_ADDRESS {
                CpuView {
                    output: s.output + word_to_bytes(value),
                    pc: s.pc.wrapping_add(4),
                    ..s
                }
            } else {
                CpuView { mem: store_word(s.mem, addr, value), pc: s.pc.wrapping_add(4), ..s }
            }
        },
        Instruction::Nop => CpuView { pc: s.pc.wrapping_add(4), ..s },
    }
}

/// The outcome of one fetch-decode-execute step from state `s`: fetch the
/// word at the program counter, decode it, track the consecutive-no-op
/// counter, and either report the run finished (on the fifth consecutive
/// no-op decode, without executing), execute the instruction, or stop on an
/// undecodable word.
pub open spec fn step_spec(s: CpuView) -> StepOutcome {
    if !(s.pc + 4 <= MEMORY_SIZE) {
        StepOutcome::Hazard
    } else {
        let w = word_at(s.mem, s.pc);
        match spec_decode(w) {
            Err(_) => StepOutcome::Illegal(s, w),
            Ok(inst) => {
                let nc: u8 = if inst is Nop {
                    if s.nop_count < NOP_LIMIT {
                        (s.nop_count + 1) as u8
                    } else {
                        s.nop_count
                    }
                } else {
                    0u8
                };
                let s1 = CpuView { nop_count: nc, ..s };
                if nc >= NOP_LIMIT {
                    StepOutcome::Finished(s1)
                } else if !exec_safe(s1, inst) {
                    StepOutcome::Hazard
                } else {
                    StepOutcome::Processing(exec_spec(s1, inst))
                }
            },
        }
    }
}

/// The machine after up to `n` steps: stepping stops early at the first
/// outcome that is not `Processing`.
pub open spec fn advance(s: CpuView, n: nat) -> StepOutcome
    decreases n,
{
    if n == 0 {
        StepOutcome::Processing(s)
    } else {
        match step_spec(s) {
            StepOutcome::Processing(s2) => advance(s2, (n - 1) as nat),
            o => o,
        }
    }
}

/// Whether a step outcome ends the run: the halt heuristic fired or an
/// undecodable word was hit.
pub open spec fn step_done(o: StepOutcome) -> bool {
    o is Finished || o is Illegal
}

/// Whether the run from `s` ever ends.
pub open spec fn halts(s: CpuView) -> bool {
    exists|n: nat| step_done(advance(s, n))
}

/// After `n` steps that are still processing, the outcome of one more step
/// is the outcome of stepping the state reached.
pub proof fn lemma_advance_snoc(s0: CpuView, n: nat, s: CpuView)
    requires
        advance(s0, n) == StepOutcome::Processing(s),
    ensures
        advance(s0, n + 1) == step_spec(s),
    decreases n,
{
    if n == 0 {
        match step_spec(s0) {
            StepOutcome::Processing(s2) => {
                assert(advance(s2, 0) == StepOutcome::Processing(s2));
                assert(advance(s0, 1) == StepOutcome::Processing(s2));
            },
            _ => {},
        }
    } else {
        match step_spec(s0) {
            StepOutcome::Processing(s1) => {
                lemma_advance_snoc(s1, (n - 1) as nat, s);
            },
            _ => {},
        }
    }
}

/// An outcome that is no longer processing persists under further steps.
pub proof fn lemma_advance_stable(s0: CpuView, n: nat, m: nat)
    requires
        !(advance(s0, n) is Processing),
        n <= m,
    ensures
        advance(s0, m) == advance(s0, n),
    decreases n,
{
    if n > 0 {
        match step_spec(s0) {
            StepOutcome::Processing(s1) => {
                lemma_advance_stable(s1, (n - 1) as nat, (m - 1) as nat);
            },
            _ => {},
        }
    }
}

impl Cpu {
    /// A machine at program counter 0 with zeroed registers and memory, an
    /// idle serial device, and the no-op counter at zero.
    pub fn new() -> (r: Cpu)
        ensures
            cpu_wf(r@),
            r@.pc == 0,
            r@.nop_count == 0,
            forall|i: int| 0 <= i < 32 ==> r@.regs[i] == 0u32,
            forall|i: int| 0 <= i < MEMORY_SIZE ==> r@.mem[i] == 0u8,
            r@.input == Seq::<u8>::empty(),
            r@.output == Seq::<u8>::empty(),
    {
        Cpu {
            pc: 0,
            x_registers: XRegisters::new(),
            memory: Memory::new(),
            serial: Serial::new(),
            nop_count: 0,
        }
    }

    /// Loads the program image verbatim at address 0; the rest of memory
    /// keeps its previous contents.
    pub fn initialize_memory(&mut self, data: Vec<u8>)
        requires
            cpu_wf(old(self)@),
            data@.len() <= MEMORY_SIZE,
        ensures
            cpu_wf(final(self)@),
            final(self)@.mem == data@ + old(self)@.mem.skip(data@.len() as int),
            final(self)@ == (CpuView { mem: final(self)@.mem, ..old(self)@ }),
    {
        self.memory.initialize(data);
    }

    /// Reads the instruction word at the current program counter.
    pub fn fetch(&self) -> (r: u32)
        requires
            cpu_wf(self@),
            self@.pc + 4 <= MEMORY_SIZE,
        ensures
            r == word_at(self@.mem, self@.pc),
    {
        self.memory.read(self.pc)
    }

    /// One fetch-decode-execute step.  The outcome is exactly what
    /// [`step_spec`] says: `Ok(Processing)` after executing an instruction,
    /// `Ok(Finished)` when the halt heuristic fires — the program counter
    /// then still points at the fifth no-op, which is not executed — and
    /// the illegal-instruction error, with the state unchanged, when the
    /// fetched word does not decode.
    pub fn run(&mut self) -> (r: Result<Status, Error>)
        requires
            cpu_wf(old(self)@),
            !(step_spec(old(self)@) is Hazard),
        ensures
            cpu_wf(final(self)@),
            (match step_spec(old(self)@) {
                StepOutcome::Processing(s2) => r == Ok::<Status, Error>(Status::Processing)
                    && final(self)@ == s2,
                StepOutcome::Finished(s2) => r == Ok::<Status, Error>(Status::Finished)
                    && final(self)@ == s2,
                StepOutcome::Illegal(s2, w) => r == Err::<Status, Error>(
                    Error::IllegalInstruction(w),
                ) && final(self)@ == s2,
                StepOutcome::Hazard => false,
            }),
    {
        let raw_inst = self.fetch();

        let inst = match Instruction::decode(raw_inst) {
            Ok(i) => i,
            Err(e) => {
                return Err(e);
            },
        };

        if let Instruction::Nop = inst {
            if self.nop_count < NOP_LIMIT {
                self.nop_count = self.nop_count + 1;
            }
        } else {
            self.nop_count = 0;
        }

        if self.nop_count >= NOP_LIMIT {
            return Ok(Status::Finished);
        }

        match self.execute(inst) {
            Ok(()) => Ok(Status::Processing),
            Err(e) => Err(e),
        }
    }

    /// Applies the semantic effect of one decoded instruction, exactly as
    /// [`exec_spec`] states it.  Execution itself cannot fail: the result
    /// is always `Ok`, and the `Result` only mirrors the step interface.
    pub fn execute(&mut self, inst: Instruction) -> (r: Result<(), Error>)
        requires
            cpu_wf(old(self)@),
            inst_wf(inst),
            exec_safe(old(self)@, inst),
        ensures
            r == Ok::<(), Error>(()),
            cpu_wf(final(self)@),
            final(self)@ == exec_spec(old(self)@, inst),
    {
        match inst {
            Instruction::Add { rd, rs1, rs2 } => {
                let value = self.x_registers.read(rs1).wrapping_add(self.x_registers.read(rs2));
                self.x_registers.write(rd, value);
                self.pc = self.pc.wrapping_add(4);
                Ok(())
            },
            Instruction::Sub { rd, rs1, rs2 } => {
                let value = self.x_registers.read(rs1).wrapping_sub(self.x_registers.read(rs2));
                self.x_registers.write(rd, value);
                self.pc = self.pc.wrapping_add(4);
                Ok(())
            },
            Instruction::Or { rd, rs1, rs2 } => {
                let value = self.x_registers.read(rs1) | self.x_registers.read(rs2);
                self.x_registers.write(rd, value);
                self.pc = self.pc.wrapping_add(4);
                Ok(())
            },
            Instruction::And { rd, rs1, rs2 } => {
                let value = self.x_registers.read(rs1) & self.x_registers.read(rs2);
                self.x_registers.write(rd, value);
                self.pc = self.pc.wrapping_add(4);
                Ok(())
            },
            Instruction::Addi { rd, rs1, imm } => {
                let num = if imm & 0x800 != 0 {
                    imm | 0xfffff000
                } else {
                    imm
                };
                let value = self.x_registers.read(rs1).wrapping_add(num);
                self.x_registers.write(rd, value);
                self.pc = self.pc.wrapping_add(4);
                Ok(())
            },
            Instruction::Slli { rd, rs1, imm } => {
                let shamt = imm & 0b11111;
                assert(shamt < 32) by (bit_vector)
                    requires
                        shamt == imm & 0b11111,
                ;
                let value = self.x_registers.read(rs1) << shamt;
                self.x_registers.write(rd, value);
                self.pc = self.pc.wrapping_add(4);
                Ok(())
            },
            Instruction::Beq { rs1, rs2, imm } => {
                let num = if imm & 0x1000 != 0 {
                    imm | 0xffffe000
                } else {
                    imm
                };
                if self.x_registers.read(rs1) == self.x_registers.read(rs2) {
                    self.pc = self.pc.wrapping_add(num);
                } else {
                    self.pc = self.pc.wrapping_add(4);
                }
                Ok(())
            },
            Instruction::Lw { rd, rs1, imm } => {
                let num = if imm & 0x800 != 0 {
                    imm | 0xfffff000
                } else {
                    imm
                };
                let addr = self.x_registers.read(rs1).wrapping_add(num);
                let value = if addr == SERIAL_ADDRESS {
                    self.serial.read()
                } else {
                    self.memory.read(addr)
                };
                self.x_registers.write(rd, value);
                self.pc = self.pc.wrapping_add(4);
                Ok(())
            },
            Instruction::Sw { rs1, rs2, imm } => {
                let num = if imm & 0x800 != 0 {
                    imm | 0xfffff000
                } else {
                    imm
                };
                let addr = self.x_registers.read(rs1).wrapping_add(num);
                let value = self.x_registers.read(rs2);
                if addr == SERIAL_ADDRESS {
                    self.serial.write(value);
                } else {
                    self.memory.write(addr, value);
                }
                self.pc = self.pc.wrapping_add(4);
                Ok(())
            },
            Instruction::Nop => {
                self.pc = self.pc.wrapping_add(4);
                Ok(())
            },
        }
    }
}

/// The halt heuristic: five consecutive no-op decodes end the run.  From a
/// state whose no-op counter is zero and whose next five word addresses
/// all decode to no-ops, the machine reports `Finished` after exactly five
/// fetches, with no decode error, the registers untouched, and the program
/// counter left at the fifth no-op, which is fetched but not executed.
pub proof fn lemma_halt_after_five_nops(s: CpuView)
    requires
        cpu_wf(s),
        s.nop_count == 0,
        s.pc + 20 <= MEMORY_SIZE,
        forall|k: int|
            0 <= k < 5 ==> spec_decode(#[trigger] word_at(s.mem, (s.pc + 4 * k) as u32)) == Ok::<
                Instruction,
                Error,
            >(Instruction::Nop),
    ensures
        advance(s, 5) == StepOutcome::Finished(
            CpuView { pc: (s.pc + 16) as u32, nop_count: NOP_LIMIT, ..s },
        ),
{
    let s1 = CpuView { pc: (s.pc + 4) as u32, nop_count: 1u8, ..s };
    let s2 = CpuView { pc: (s.pc + 8) as u32, nop_count: 2u8, ..s };
    let s3 = CpuView { pc: (s.pc + 12) as u32, nop_count: 3u8, ..s };
    let s4 = CpuView { pc: (s.pc + 16) as u32, nop_count: 4u8, ..s };
    let s5 = CpuView { pc: (s.pc + 16) as u32, nop_count: NOP_LIMIT, ..s };
    assert(spec_decode(word_at(s.mem, (s.pc + 4 * 0) as u32)) == Ok::<Instruction, Error>(
        Instruction::Nop,
    ));
    assert(spec_decode(word_at(s1.mem, (s.pc + 4 * 1) as u32)) == Ok::<Instruction, Error>(
        Instruction::Nop,
    ));
    assert(spec_decode(word_at(s2.mem, (s.pc + 4 * 2) as u32)) == Ok::<Instruction, Error>(
        Instruction::Nop,
    ));
    assert(spec_decode(word_at(s3.mem, (s.pc + 4 * 3) as u32)) == Ok::<Instruction, Error>(
        Instruction::Nop,
    ));
    assert(spec_decode(word_at(s4.mem, (s.pc + 4 * 4) as u32)) == Ok::<Instruction, Error>(
        Instruction::Nop,
    ));
    assert(step_spec(s) == StepOutcome::Processing(s1));
    assert(step_spec(s1) == StepOutcome::Processing(s2));
    assert(step_spec(s2) == StepOutcome::Processing(s3));
    assert(step_spec(s3) == StepOutcome::Processing(s4));
    assert(step_spec(s4) == StepOutcome::Finished(s5));
    assert(advance(s4, 1) == StepOutcome::Finished(s5));
    assert(advance(s3, 2) == advance(s4, 1));
    assert(advance(s2, 3) == advance(s3, 2));
    assert(advance(s1, 4) == advance(s2, 3));
    assert(advance(s, 5) == advance(s1, 4));
}

/// The branch law: on equal source registers the program counter moves by
/// the sign-extended 13-bit immediate instead of 4; on unequal ones it
/// advances by exactly 4.  Nothing else of the state changes.
pub proof fn lemma_beq_pc(s: CpuView, rs1: u32, rs2: u32, imm: u32)
    requires
        rs1 < 32,
        rs2 < 32,
    ensures
        s.regs[rs1 as int] == s.regs[rs2 as int] ==> exec_spec(
            s,
            Instruction::Beq { rs1, rs2, imm },
        ) == (CpuView { pc: s.pc.wrapping_add(sign_extend_13(imm)), ..s }),
        s.regs[rs1 as int] != s.regs[rs2 as int] ==> exec_spec(
            s,
            Instruction::Beq { rs1, rs2, imm },
        ) == (CpuView { pc: s.pc.wrapping_add(4), ..s }),
{
}

} // verus!
