//! Instruction decoding: from a raw 32-bit word to a tagged instruction.

use vstd::prelude::*;
use crate::error::Error;

verus! {

/// An instruction decoded from a 32-bit word.  Each variant carries only
/// the operand fields meaningful to it; immediates are raw unsigned bit
/// patterns whose sign interpretation is deferred to the execution unit.
#[derive(Clone, Copy, Debug, PartialEq, Eq, Structural)]
pub enum Instruction {
    Add { rd: u32, rs1: u32, rs2: u32 },
    Sub { rd: u32, rs1: u32, rs2: u32 },
    Or { rd: u32, rs1: u32, rs2: u32 },
    And { rd: u32, rs1: u32, rs2: u32 },
    Addi { rd: u32, rs1: u32, imm: u32 },
    Slli { rd: u32, rs1: u32, imm: u32 },
    Beq { rs1: u32, rs2: u32, imm: u32 },
    Lw { rd: u32, rs1: u32, imm: u32 },
    Sw { rs1: u32, rs2: u32, imm: u32 },
    Nop,
}

/// Bits [0, 7): the instruction family.
pub open spec fn opcode_of(w: u32) -> u32 {
    w & 0x0000007f
}

/// Bits [7, 12): the destination register.
pub open spec fn rd_of(w: u32) -> u32 {
    (w & 0x00000f80) >> 7
}

/// Bits [12, 15): the first disambiguating field inside a family.
pub open spec fn funct3_of(w: u32) -> u32 {
    (w & 0x00007000) >> 12
}

/// Bits [15, 20): the first source register.
pub open spec fn rs1_of(w: u32) -> u32 {
    (w & 0x000f8000) >> 15
}

/// Bits [20, 25): the second source register.
pub open spec fn rs2_of(w: u32) -> u32 {
    (w & 0x01f00000) >> 20
}

/// Bits [25, 32): the second disambiguating field of the register-register
/// family.
pub open spec fn funct7_of(w: u32) -> u32 {
    (w & 0xfe000000) >> 25
}

/// Bits [20, 32): the 12-bit immediate of the register-immediate and load
/// families, unsigned-extracted.
pub open spec fn imm_i_of(w: u32) -> u32 {
    (w & 0xfff00000) >> 20
}

/// The 12-bit store immediate: bits [25, 32) of the word as its high 7
/// bits, bits [7, 12) as its low 5 bits.
pub open spec fn imm_s_of(w: u32) -> u32 {
    ((w & 0xfe000000) >> 20) | ((w & 0x00000f80) >> 7)
}

/// The 13-bit branch immediate, reassembled from four disjoint sub-fields:
/// word bit 31 is immediate bit 12, word bit 7 is bit 11, word bits
/// [25, 31) are bits [5, 11), word bits [8, 12) are bits [1, 5); immediate
/// bit 0 is always zero.
pub open spec fn imm_b_of(w: u32) -> u32 {
    ((w & 0x80000000) >> 19) | ((w & 0x00000080) << 4) | ((w & 0x7e000000) >> 20) | ((w
        & 0x00000f00) >> 7)
}

/// The word assembled from the six fixed fields; the inverse of the field
/// extraction above.
pub open spec fn encode_fields(
    opcode: u32,
    rd: u32,
    funct3: u32,
    rs1: u32,
    rs2: u32,
    funct7: u32,
) -> u32 {
    opcode | rd << 7 | funct3 << 12 | rs1 << 15 | rs2 << 20 | funct7 << 25
}

/// What a 32-bit word decodes to: a tagged instruction, or the illegal
/// instruction error carrying the word itself when no opcode/funct3/funct7
/// combination matches.
pub open spec fn spec_decode(w: u32) -> Result<Instruction, Error> {
    let opcode = opcode_of(w);
    let rd = rd_of(w);
    let funct3 = funct3_of(w);
    let rs1 = rs1_of(w);
    let rs2 = rs2_of(w);
    let funct7 = funct7_of(w);
    if opcode == 0b0110011 {
        if funct3 == 0x0 {
            if funct7 == 0x00 {
                Ok(Instruction::Add { rd, rs1, rs2 })
            } else if funct7 == 0x20 {
                Ok(Instruction::Sub { rd, rs1, rs2 })
            } else {
                Err(Error::IllegalInstruction(w))
            }
        } else if funct3 == 0x6 {
            Ok(Instruction::Or { rd, rs1, rs2 })
        } else if funct3 == 0x7 {
            Ok(Instruction::And { rd, rs1, rs2 })
        } else {
            Err(Error::IllegalInstruction(w))
        }
    } else if opcode == 0b0010011 {
        let imm = imm_i_of(w);
        if funct3 == 0x0 {
            if rd == 0 && rs1 == 0 && imm == 0 {
                Ok(Instruction::Nop)
            } else {
                Ok(Instruction::Addi { rd, rs1, imm })
            }
        } else if funct3 == 0x1 {
            Ok(Instruction::Slli { rd, rs1, imm })
        } else {
            Err(Error::IllegalInstruction(w))
        }
    } else if opcode == 0b0000011 {
        if funct3 == 0x2 {
            Ok(Instruction::Lw { rd, rs1, imm: imm_i_of(w) })
        } else {
            Err(Error::IllegalInstruction(w))
        }
    } else if opcode == 0b0100011 {
        if funct3 == 0x2 {
            Ok(Instruction::Sw { rs1, rs2, imm: imm_s_of(w) })
        } else {
            Err(Error::IllegalInstruction(w))
        }
    } else if opcode == 0b1100011 {
        if funct3 == 0x0 {
            Ok(Instruction::Beq { rs1, rs2, imm: imm_b_of(w) })
        } else {
            Err(Error::IllegalInstruction(w))
        }
    } else {
        Err(Error::IllegalInstruction(w))
    }
}

/// Every register field of a decoded instruction indexes one of the 32
/// registers, and every immediate fits its declared width.
pub open spec fn inst_wf(inst: Instruction) -> bool {
    match inst {
        Instruction::Add { rd, rs1, rs2 } => rd < 32 && rs1 < 32 && rs2 < 32,
        Instruction::Sub { rd, rs1, rs2 } => rd < 32 && rs1 < 32 && rs2 < 32,
        Instruction::Or { rd, rs1, rs2 } => rd < 32 && rs1 < 32 && rs2 < 32,
        Instruction::And { rd, rs1, rs2 } => rd < 32 && rs1 < 32 && rs2 < 32,
        Instruction::Addi { rd, rs1, imm } => rd < 32 && rs1 < 32 && imm < 0x1000,
        Instruction::Slli { rd, rs1, imm } => rd < 32 && rs1 < 32 && imm < 0x1000,
        Instruction::Beq { rs1, rs2, imm } => rs1 < 32 && rs2 < 32 && imm < 0x2000,
        Instruction::Lw { rd, rs1, imm } => rd < 32 && rs1 < 32 && imm < 0x1000,
        Instruction::Sw { rs1, rs2, imm } => rs1 < 32 && rs2 < 32 && imm < 0x1000,
        Instruction::Nop => true,
    }
}

/// Bounds of the extracted fields, straight from their bit widths.
pub proof fn lemma_field_bounds(w: u32)
    ensures
        rd_of(w) < 32,
        rs1_of(w) < 32,
        rs2_of(w) < 32,
        funct3_of(w) < 8,
        funct7_of(w) < 128,
        imm_i_of(w) < 0x1000,
        imm_s_of(w) < 0x1000,
        imm_b_of(w) < 0x2000,
{
    assert((w & 0x00000f80) >> 7 < 32) by (bit_vector);
    assert((w & 0x000f8000) >> 15 < 32) by (bit_vector);
    assert((w & 0x01f00000) >> 20 < 32) by (bit_vector);
    assert((w & 0x00007000) >> 12 < 8) by (bit_vector);
    assert((w & 0xfe000000) >> 25 < 128) by (bit_vector);
    assert((w & 0xfff00000) >> 20 < 0x1000) by (bit_vector);
    assert(((w & 0xfe000000) >> 20) | ((w & 0x00000f80) >> 7) < 0x1000) by (bit_vector);
    assert(((w & 0x80000000) >> 19) | ((w & 0x00000080) << 4) | ((w & 0x7e000000) >> 20) | ((w
        & 0x00000f00) >> 7) < 0x2000) by (bit_vector);
}

/// Whatever a word decodes to is well formed.
pub proof fn lemma_decode_wf(w: u32)
    ensures
        spec_decode(w) matches Ok(inst) ==> inst_wf(inst),
{
    lemma_field_bounds(w);
}

/// The six fixed fields partition the 32 bits of the word: extracting them
/// and reassembling them recovers the word, whatever it holds.
pub proof fn lemma_fields_reassemble(w: u32)
    ensures
        encode_fields(opcode_of(w), rd_of(w), funct3_of(w), rs1_of(w), rs2_of(w), funct7_of(w))
            == w,
{
    assert((w & 0x0000007f) | ((w & 0x00000f80) >> 7) << 7 | ((w & 0x00007000) >> 12) << 12 | ((w
        & 0x000f8000) >> 15) << 15 | ((w & 0x01f00000) >> 20) << 20 | ((w & 0xfe000000) >> 25)
        << 25 == w) by (bit_vector);
}

/// For every valid register-register encoding, re-encoding the fields that
/// decoding extracted recovers the original word — opcode, funct3, funct7
/// and register fields exactly.
pub proof fn lemma_rtype_round_trip(w: u32, rd: u32, rs1: u32, rs2: u32)
    ensures
        spec_decode(w) == Ok::<Instruction, Error>(Instruction::Add { rd, rs1, rs2 }) ==> encode_fields(
            0b0110011,
            rd,
            0x0,
            rs1,
            rs2,
            0x00,
        ) == w,
        spec_decode(w) == Ok::<Instruction, Error>(Instruction::Sub { rd, rs1, rs2 }) ==> encode_fields(
            0b0110011,
            rd,
            0x0,
            rs1,
            rs2,
            0x20,
        ) == w,
        spec_decode(w) == Ok::<Instruction, Error>(Instruction::Or { rd, rs1, rs2 }) ==> encode_fields(
            0b0110011,
            rd,
            0x6,
            rs1,
            rs2,
            funct7_of(w),
        ) == w,
        spec_decode(w) == Ok::<Instruction, Error>(Instruction::And { rd, rs1, rs2 }) ==> encode_fields(
            0b0110011,
            rd,
            0x7,
            rs1,
            rs2,
            funct7_of(w),
        ) == w,
{
    lemma_fields_reassemble(w);
}

impl Instruction {
    /// Decodes a raw 32-bit word, yielding the illegal-instruction error
    /// carrying that exact word when no known combination matches.
    pub fn decode(inst: u32) -> (r: Result<Instruction, Error>)
        ensures
            r == spec_decode(inst),
            r matches Ok(i) ==> inst_wf(i),
            r matches Err(e) ==> e == Error::IllegalInstruction(inst),
    {
        proof {
            lemma_decode_wf(inst);
        }
        let opcode = inst & 0x0000007f;
        let rd = (inst & 0x00000f80) >> 7;
        let funct3 = (inst & 0x00007000) >> 12;
        let rs1 = (inst & 0x000f8000) >> 15;
        let rs2 = (inst & 0x01f00000) >> 20;
        let funct7 = (inst & 0xfe000000) >> 25;

        match opcode {
            // R-type: register-register operations
            0b0110011 => match funct3 {
                0x0 => match funct7 {
                    0x00 => Ok(Instruction::Add { rd, rs1, rs2 }),
                    0x20 => Ok(Instruction::Sub { rd, rs1, rs2 }),
                    _ => Err(Error::IllegalInstruction(inst)),
                },
                0x6 => Ok(Instruction::Or { rd, rs1, rs2 }),
                0x7 => Ok(Instruction::And { rd, rs1, rs2 }),
                _ => Err(Error::IllegalInstruction(inst)),
            },
            // I-type: register-immediate operations
            0b0010011 => {
                let imm = (inst & 0xfff00000) >> 20;
                match funct3 {
                    0x0 => {
                        if rd == 0 && rs1 == 0 && imm == 0 {
                            Ok(Instruction::Nop)
                        } else {
                            Ok(Instruction::Addi { rd, rs1, imm })
                        }
                    },
                    0x1 => Ok(Instruction::Slli { rd, rs1, imm }),
                    _ => Err(Error::IllegalInstruction(inst)),
                }
            },
            // I-type: load word
            0b0000011 => {
                let imm = (inst & 0xfff00000) >> 20;
                match funct3 {
                    0x2 => Ok(Instruction::Lw { rd, rs1, imm }),
                    _ => Err(Error::IllegalInstruction(inst)),
                }
            },
            // S-type: store word
            0b0100011 => {
                let imm = ((inst & 0xfe000000) >> 20) | ((inst & 0x00000f80) >> 7);
                match funct3 {
                    0x2 => Ok(Instruction::Sw { rs1, rs2, imm }),
                    _ => Err(Error::IllegalInstruction(inst)),
                }
            },
            // B-type: branch on equal
            0b1100011 => {
                let imm = ((inst & 0x80000000) >> 19) | ((inst & 0x00000080) << 4) | ((inst
                    & 0x7e000000) >> 20) | ((inst & 0x00000f00) >> 7);
                match funct3 {
                    0x0 => Ok(Instruction::Beq { rs1, rs2, imm }),
                    _ => Err(Error::IllegalInstruction(inst)),
                }
            },
            _ => Err(Error::IllegalInstruction(inst)),
        }
    }
}

} // verus!
