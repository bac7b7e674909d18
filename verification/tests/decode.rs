use rv32sim::error::Error;
use rv32sim::instruction::Instruction;

#[test]
fn decode_add() {
    let instruction = Instruction::decode(0b0000000_10111_10011_000_00000_0110011);
    assert_eq!(
        Ok(Instruction::Add {
            rd: 0,
            rs1: 19,
            rs2: 23
        }),
        instruction
    );
}

#[test]
fn decode_sub() {
    let instruction = Instruction::decode(0b0100000_10111_10011_000_00000_0110011);
    assert_eq!(
        Ok(Instruction::Sub {
            rd: 0,
            rs1: 19,
            rs2: 23
        }),
        instruction
    );
}

#[test]
fn decode_or() {
    let instruction = Instruction::decode(0b0100000_10111_10011_110_00000_0110011);
    assert_eq!(
        Ok(Instruction::Or {
            rd: 0,
            rs1: 19,
            rs2: 23
        }),
        instruction
    );
}

#[test]
fn decode_and() {
    let instruction = Instruction::decode(0b0100000_10111_10011_111_00000_0110011);
    assert_eq!(
        Ok(Instruction::And {
            rd: 0,
            rs1: 19,
            rs2: 23
        }),
        instruction
    );
}

#[test]
fn decode_addi() {
    let instruction = Instruction::decode(0b010000010111_10011_000_00000_0010011);
    assert_eq!(
        Ok(Instruction::Addi {
            rd: 0,
            rs1: 19,
            imm: 1047
        }),
        instruction
    );
}

#[test]
fn decode_slli() {
    let instruction = Instruction::decode(0b000000000101_10011_001_00000_0010011);
    assert_eq!(
        Ok(Instruction::Slli {
            rd: 0,
            rs1: 19,
            imm: 5
        }),
        instruction
    );
}

#[test]
fn decode_lw() {
    let instruction = Instruction::decode(0b000000000101_10011_010_00100_0000011);
    assert_eq!(
        Ok(Instruction::Lw {
            rd: 4,
            rs1: 19,
            imm: 5
        }),
        instruction
    );
}

#[test]
fn decode_sw() {
    let instruction = Instruction::decode(0b000000000101_10011_010_00100_0100011);
    assert_eq!(
        Ok(Instruction::Sw {
            rs1: 19,
            rs2: 5,
            imm: 4
        }),
        instruction
    );
}

#[test]
fn decode_beq() {
    let instruction = Instruction::decode(0b00000000_0101_10011_000_00010_1100011);
    assert_eq!(
        Ok(Instruction::Beq {
            rs1: 19,
            rs2: 5,
            imm: 2
        }),
        instruction
    );
}

#[test]
fn decode_nop() {
    // The canonical no-op: Addi with zero destination, source and immediate.
    assert_eq!(Ok(Instruction::Nop), Instruction::decode(0x00000013));
}

#[test]
fn decode_unknown_opcode_carries_word() {
    // Opcode 0b1010101 matches no instruction family; the error carries the
    // exact word.
    let word = 0b1010101;
    assert_eq!(
        Err(Error::IllegalInstruction(word)),
        Instruction::decode(word)
    );
    // All-zero word: opcode 0 is likewise unknown.
    assert_eq!(Err(Error::IllegalInstruction(0)), Instruction::decode(0));
}

#[test]
fn decode_unknown_funct_carries_word() {
    // R-type opcode with funct3 = 0 but funct7 = 0x01: no match.
    let word = 0b0000001_10111_10011_000_00001_0110011;
    assert_eq!(
        Err(Error::IllegalInstruction(word)),
        Instruction::decode(word)
    );
}

#[test]
fn rtype_reencode_recovers_word() {
    // Decoding a register-register word and reassembling the extracted
    // fields recovers the original word bit for bit.
    let word: u32 = 0b0100000_10111_10011_000_00101_0110011;
    match Instruction::decode(word) {
        Ok(Instruction::Sub { rd, rs1, rs2 }) => {
            let reencoded =
                0b0110011u32 | rd << 7 | 0x0 << 12 | rs1 << 15 | rs2 << 20 | 0x20 << 25;
            assert_eq!(word, reencoded);
            assert_eq!(5, rd);
            assert_eq!(19, rs1);
            assert_eq!(23, rs2);
        }
        other => panic!("expected Sub, got {:?}", other),
    }
}
