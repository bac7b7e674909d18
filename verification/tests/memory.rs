use rv32sim::memory::Memory;
use rv32sim::memory::MEMORY_SIZE;

#[test]
fn read_empty_memory() {
    let memory = Memory::new();

    assert_eq!(memory.read(0), 0);
}

#[test]
fn read_and_write_full_word() {
    let full_word = (2u64.pow(32) - 1) as u32;
    let mut memory = Memory::new();
    let addr: u32 = 5;
    memory.write(addr, full_word);
    assert_eq!(memory.read(addr), full_word);
}

#[test]
fn test_read() {
    let mut memory = Memory::new();
    memory.initialize(vec![0x93, 0x00, 0x01, 0x01, 0x94, 0x00, 0x01, 0x01]);
    let addr = 0;
    assert_eq!(0x01010093, memory.read(addr));

    let addr = 4;
    assert_eq!(0x01010094, memory.read(addr));

    let addr = 8;
    assert_eq!(0, memory.read(addr));
}

#[test]
fn test_set_data() {
    let mut memory = Memory::new();
    memory.initialize(vec![0x93, 0x00, 0x01, 0x01, 0x94, 0x00, 0x01, 0x01]);

    assert_eq!(0x01010093, memory.read(0));
    assert_eq!(0x01010094, memory.read(4));

    memory.write(0, 0x01010095);
    memory.write(4, 0x01010096);

    assert_eq!(0x01010095, memory.read(0));
    assert_eq!(0x01010096, memory.read(4));
}

#[test]
fn round_trip_at_top_of_memory() {
    // The last word slot within capacity, with every bit set.
    let mut memory = Memory::new();
    let addr = MEMORY_SIZE - 4;
    memory.write(addr, 0xffffffff);
    assert_eq!(0xffffffff, memory.read(addr));
    memory.write(addr, 0x80000001);
    assert_eq!(0x80000001, memory.read(addr));
}
