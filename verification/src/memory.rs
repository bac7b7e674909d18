//! Byte-addressable memory with little-endian word access.

use vstd::prelude::*;

verus! {

/// Capacity of the simulated memory, in bytes.
pub const MEMORY_SIZE: u32 = 1024 * 1024;

/// A flat, fixed-capacity, zero-initialized byte array.  Words are read and
/// written little-endian; a word access at address `a` touches the bytes
/// `[a, a + 4)`, which the contracts require to lie within capacity.
pub struct Memory {
    pub data: Vec<u8>,
}

impl View for Memory {
    type V = Seq<u8>;

    open spec fn view(&self) -> Seq<u8> {
        self.data@
    }
}

/// The 32-bit word assembled little-endian from four bytes.
pub open spec fn word_from_bytes(b0: u8, b1: u8, b2: u8, b3: u8) -> u32 {
    b0 as u32 | ((b1 as u32) << 8) | ((b2 as u32) << 16) | ((b3 as u32) << 24)
}

/// The word stored little-endian at `addr`.
pub open spec fn word_at(mem: Seq<u8>, addr: u32) -> u32
    recommends
        addr + 4 <= mem.len(),
{
    word_from_bytes(
        mem[addr as int],
        mem[addr as int + 1],
        mem[addr as int + 2],
        mem[addr as int + 3],
    )
}

/// The memory after storing `word` little-endian at `addr`.
pub open spec fn store_word(mem: Seq<u8>, addr: u32, word: u32) -> Seq<u8>
    recommends
        addr + 4 <= mem.len(),
{
    mem.update(addr as int, (word & 0xff) as u8)
        .update(addr as int + 1, ((word >> 8) & 0xff) as u8)
        .update(addr as int + 2, ((word >> 16) & 0xff) as u8)
        .update(addr as int + 3, ((word >> 24) & 0xff) as u8)
}

impl Memory {
    pub open spec fn wf(&self) -> bool {
        self@.len() == MEMORY_SIZE
    }

    /// A zeroed memory of `MEMORY_SIZE` bytes.
    pub fn new() -> (r: Memory)
        ensures
            r.wf(),
            forall|i: int| 0 <= i < MEMORY_SIZE ==> r@[i] == 0u8,
    {
        let mut data: Vec<u8> = Vec::new();
        let mut i: u32 = 0;
        while i < MEMORY_SIZE
            invariant
                i <= MEMORY_SIZE,
                data@.len() == i,
                forall|j: int| 0 <= j < i ==> data@[j] == 0u8,
            decreases MEMORY_SIZE - i,
        {
            data.push(0u8);
            i = i + 1;
        }
        Memory { data }
    }

    /// Stores `word` little-endian at `addr`.
    pub fn write(&mut self, addr: u32, word: u32)
        requires
            old(self).wf(),
            addr + 4 <= MEMORY_SIZE,
        ensures
            final(self).wf(),
            final(self)@ == store_word(old(self)@, addr, word),
            word_at(final(self)@, addr) == word,
    {
        let index = addr as usize;
        self.data[index] = (word & 0xff) as u8;
        self.data[index + 1] = ((word >> 8) & 0xff) as u8;
        self.data[index + 2] = ((word >> 16) & 0xff) as u8;
        self.data[index + 3] = ((word >> 24) & 0xff) as u8;
        proof {
            lemma_word_bytes_round_trip(word);
        }
    }

    /// Loads the word stored little-endian at `addr`.
    pub fn read(&self, addr: u32) -> (r: u32)
        requires
            self.wf(),
            addr + 4 <= MEMORY_SIZE,
        ensures
            r == word_at(self@, addr),
    {
        let index = addr as usize;
        self.data[index] as u32
            | (self.data[index + 1] as u32) << 8
            | (self.data[index + 2] as u32) << 16
            | (self.data[index + 3] as u32) << 24
    }

    /// Overwrites the first `data.len()` bytes with the program image;
    /// everything beyond the image keeps its previous contents.
    pub fn initialize(&mut self, data: Vec<u8>)
        requires
            old(self).wf(),
            data@.len() <= MEMORY_SIZE,
        ensures
            final(self).wf(),
            final(self)@ == data@ + old(self)@.skip(data@.len() as int),
    {
        let n = data.len();
        let mut i: usize = 0;
        while i < n
            invariant
                i <= n,
                n == data@.len() <= MEMORY_SIZE,
                self@.len() == MEMORY_SIZE,
                forall|j: int| 0 <= j < i ==> self@[j] == data@[j],
                forall|j: int| i <= j < MEMORY_SIZE ==> self@[j] == old(self)@[j],
            decreases n - i,
        {
            let b = data[i];
            self.data[i] = b;
            i = i + 1;
        }
        proof {
            assert(self@ =~= data@ + old(self)@.skip(data@.len() as int));
        }
    }
}

/// Splitting a word into its four little-endian bytes and reassembling them
/// recovers the word.
pub proof fn lemma_word_bytes_round_trip(word: u32)
    ensures
        word_from_bytes(
            (word & 0xff) as u8,
            ((word >> 8) & 0xff) as u8,
            ((word >> 16) & 0xff) as u8,
            ((word >> 24) & 0xff) as u8,
        ) == word,
{
    assert((word & 0xff) as u8 as u32 | (((word >> 8) & 0xff) as u8 as u32) << 8
        | (((word >> 16) & 0xff) as u8 as u32) << 16 | (((word >> 24) & 0xff) as u8 as u32) << 24
        == word) by (bit_vector);
}

/// A stored word reads back exactly, for every address within capacity and
/// every 32-bit value.
pub proof fn lemma_memory_round_trip(mem: Seq<u8>, addr: u32, word: u32)
    requires
        mem.len() == MEMORY_SIZE,
        addr + 4 <= MEMORY_SIZE,
    ensures
        word_at(store_word(mem, addr, word), addr) == word,
{
    lemma_word_bytes_round_trip(word);
}

} // verus!
