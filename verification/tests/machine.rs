use rv32sim::cpu::Cpu;
use rv32sim::cpu::Status;
use rv32sim::error::Error;
use rv32sim::instruction::Instruction;
use rv32sim::serial::SERIAL_ADDRESS;
use rv32sim::simulator::Simulator;

#[test]
fn addi_sign_extends_bit_11() {
    // Immediate 0x800 has bit 11 set: added to register value 0 it yields
    // -2048 in two's complement.
    let mut cpu = Cpu::new();
    let r = cpu.execute(Instruction::Addi {
        rd: 1,
        rs1: 2,
        imm: 0x800,
    });
    assert_eq!(Ok(()), r);
    assert_eq!(0xfffff800, cpu.x_registers.read(1));
    assert_eq!(4, cpu.pc);
}

#[test]
fn addi_keeps_positive_immediate() {
    let mut cpu = Cpu::new();
    let r = cpu.execute(Instruction::Addi {
        rd: 1,
        rs1: 2,
        imm: 0x7ff,
    });
    assert_eq!(Ok(()), r);
    assert_eq!(0x7ff, cpu.x_registers.read(1));
    assert_eq!(4, cpu.pc);
}

#[test]
fn add_wraps_around() {
    let mut cpu = Cpu::new();
    cpu.x_registers.write(1, 0xffffffff);
    cpu.x_registers.write(2, 2);
    let r = cpu.execute(Instruction::Add {
        rd: 3,
        rs1: 1,
        rs2: 2,
    });
    assert_eq!(Ok(()), r);
    assert_eq!(1, cpu.x_registers.read(3));
}

#[test]
fn slli_shifts_by_low_five_bits() {
    let mut cpu = Cpu::new();
    cpu.x_registers.write(1, 0b101);
    let r = cpu.execute(Instruction::Slli {
        rd: 2,
        rs1: 1,
        imm: 3,
    });
    assert_eq!(Ok(()), r);
    assert_eq!(0b101000, cpu.x_registers.read(2));
}

#[test]
fn beq_taken_moves_pc_by_immediate() {
    let mut cpu = Cpu::new();
    cpu.pc = 0x100;
    cpu.x_registers.write(1, 7);
    cpu.x_registers.write(2, 7);
    let r = cpu.execute(Instruction::Beq {
        rs1: 1,
        rs2: 2,
        imm: 8,
    });
    assert_eq!(Ok(()), r);
    assert_eq!(0x108, cpu.pc);
}

#[test]
fn beq_taken_backwards() {
    // Immediate 0x1ff8 has bit 12 set: sign-extended it is -8.
    let mut cpu = Cpu::new();
    cpu.pc = 0x100;
    let r = cpu.execute(Instruction::Beq {
        rs1: 1,
        rs2: 2,
        imm: 0x1ff8,
    });
    assert_eq!(Ok(()), r);
    assert_eq!(0xf8, cpu.pc);
}

#[test]
fn beq_not_taken_advances_pc_by_4() {
    let mut cpu = Cpu::new();
    cpu.pc = 0x100;
    cpu.x_registers.write(1, 7);
    cpu.x_registers.write(2, 8);
    let r = cpu.execute(Instruction::Beq {
        rs1: 1,
        rs2: 2,
        imm: 8,
    });
    assert_eq!(Ok(()), r);
    assert_eq!(0x104, cpu.pc);
}

#[test]
fn lw_and_sw_round_trip_through_memory() {
    let mut cpu = Cpu::new();
    cpu.x_registers.write(1, 0x200);
    cpu.x_registers.write(2, 0xcafebabe);
    let r = cpu.execute(Instruction::Sw {
        rs1: 1,
        rs2: 2,
        imm: 8,
    });
    assert_eq!(Ok(()), r);
    let r = cpu.execute(Instruction::Lw {
        rd: 3,
        rs1: 1,
        imm: 8,
    });
    assert_eq!(Ok(()), r);
    assert_eq!(0xcafebabe, cpu.x_registers.read(3));
    assert_eq!(0xcafebabe, cpu.memory.read(0x208));
}

#[test]
fn sw_to_serial_address_emits_word_bytes() {
    // Writing word 0x01020304 to the mapped address emits the bytes in
    // little-endian order instead of touching memory.
    let mut cpu = Cpu::new();
    cpu.x_registers.write(1, SERIAL_ADDRESS);
    cpu.x_registers.write(2, 0x01020304);
    let r = cpu.execute(Instruction::Sw {
        rs1: 1,
        rs2: 2,
        imm: 0,
    });
    assert_eq!(Ok(()), r);
    assert_eq!(vec![0x04, 0x03, 0x02, 0x01], cpu.serial.output);
}

#[test]
fn lw_from_serial_address_consumes_input() {
    let mut cpu = Cpu::new();
    cpu.serial.input = vec![0x04, 0x03, 0x02, 0x01];
    cpu.x_registers.write(1, SERIAL_ADDRESS);
    let r = cpu.execute(Instruction::Lw {
        rd: 3,
        rs1: 1,
        imm: 0,
    });
    assert_eq!(Ok(()), r);
    assert_eq!(0x01020304, cpu.x_registers.read(3));
    assert!(cpu.serial.input.is_empty());
}

#[test]
fn run_reports_processing_then_error() {
    let mut cpu = Cpu::new();
    cpu.initialize_memory(vec![0x93, 0x00, 0x01, 0x01, 0x94, 0x00, 0x01, 0x01]);
    assert_eq!(Ok(Status::Processing), cpu.run());
    assert_eq!(Err(Error::IllegalInstruction(0x01010094)), cpu.run());
}

#[test]
fn halt_after_five_consecutive_nops() {
    // Five no-op words at the tail stop the run with Finished and no decode
    // error; the program counter is left at the fifth no-op's fetch address.
    let mut simulator = Simulator::new();
    let mut image = Vec::new();
    for _ in 0..5 {
        image.extend_from_slice(&[0x13, 0x00, 0x00, 0x00]);
    }
    simulator.initialize_memory(image);
    assert_eq!(Ok(()), simulator.start());
    assert_eq!(16, simulator.cpu.pc);
    for i in 0..32 {
        assert_eq!(0, simulator.cpu.x_registers.read(i));
    }
}

#[test]
fn non_nop_resets_the_counter() {
    // Two no-ops, one Addi, then five no-ops: the Addi resets the counter,
    // so the run ends at the fifth no-op after it.
    let mut simulator = Simulator::new();
    let mut image = Vec::new();
    image.extend_from_slice(&[0x13, 0x00, 0x00, 0x00]);
    image.extend_from_slice(&[0x13, 0x00, 0x00, 0x00]);
    image.extend_from_slice(&[0x93, 0x00, 0x10, 0x00]); // Addi x1, x0, 1
    for _ in 0..5 {
        image.extend_from_slice(&[0x13, 0x00, 0x00, 0x00]);
    }
    simulator.initialize_memory(image);
    assert_eq!(Ok(()), simulator.start());
    assert_eq!(1, simulator.cpu.x_registers.read(1));
    assert_eq!(12 + 16, simulator.cpu.pc);
}

#[test]
fn end_to_end_golden_run() {
    // The two-word program Addi / unknown-opcode against a zeroed register
    // file: one instruction executes, the second word aborts the run, and
    // the final dump is deterministic.
    let mut simulator = Simulator::new();
    simulator.initialize_memory(vec![0x93, 0x00, 0x01, 0x01, 0x94, 0x00, 0x01, 0x01]);
    let r = simulator.start();
    assert_eq!(Err(Error::IllegalInstruction(0x01010094)), r);
    assert_eq!(16, simulator.cpu.x_registers.read(1));
    for i in 2..32 {
        assert_eq!(0, simulator.cpu.x_registers.read(i));
    }
    assert_eq!(4, simulator.cpu.pc);
}
