//! The memory-mapped serial device.
//!
//! The device exchanges whole 32-bit words with a pair of byte streams.  The
//! streams themselves live outside this crate: the device holds the pending
//! input bytes and the emitted output bytes as plain buffers, and the driver
//! around the library moves bytes between these buffers and the real world.

use vstd::prelude::*;
use crate::memory::word_from_bytes;

verus! {

/// The fixed address that intercepts loads and stores and redirects them to
/// the serial device; it is never backed by memory.
pub const SERIAL_ADDRESS: u32 = 0x10000000;

/// The four bytes of `word` in little-endian order.
pub open spec fn word_to_bytes(word: u32) -> Seq<u8> {
    seq![
        (word & 0xff) as u8,
        ((word >> 8) & 0xff) as u8,
        ((word >> 16) & 0xff) as u8,
        ((word >> 24) & 0xff) as u8,
    ]
}

/// Byte `i` of the pending input, or 0 past its end: a short read is
/// zero-filled.
pub open spec fn input_byte(input: Seq<u8>, i: int) -> u8 {
    if 0 <= i < input.len() {
        input[i]
    } else {
        0u8
    }
}

/// The word a read assembles little-endian from the front of the pending
/// input, zero-filled where fewer than four bytes are pending.
pub open spec fn input_word(input: Seq<u8>) -> u32 {
    word_from_bytes(
        input_byte(input, 0),
        input_byte(input, 1),
        input_byte(input, 2),
        input_byte(input, 3),
    )
}

/// The pending input after a read consumed up to four bytes from its front.
pub open spec fn input_rest(input: Seq<u8>) -> Seq<u8> {
    if input.len() <= 4 {
        Seq::empty()
    } else {
        input.skip(4)
    }
}

/// The pending input with its first byte consumed, if any was pending.
pub open spec fn drop_first(input: Seq<u8>) -> Seq<u8> {
    if input.len() == 0 {
        Seq::empty()
    } else {
        input.skip(1)
    }
}

/// A single serial port: `input` holds the bytes not yet consumed by word
/// reads, `output` the bytes emitted by word writes, oldest first.
pub struct Serial {
    pub input: Vec<u8>,
    pub output: Vec<u8>,
}

impl Serial {
    /// A serial device with no pending input and no emitted output.
    pub fn new() -> (r: Serial)
        ensures
            r.input@ == Seq::<u8>::empty(),
            r.output@ == Seq::<u8>::empty(),
    {
        Serial { input: Vec::new(), output: Vec::new() }
    }

    /// Emits the four bytes of `word` in little-endian order.
    pub fn write(&mut self, word: u32)
        ensures
            final(self).output@ == old(self).output@ + word_to_bytes(word),
            final(self).input@ == old(self).input@,
    {
        self.output.push((word & 0xff) as u8);
        self.output.push(((word >> 8) & 0xff) as u8);
        self.output.push(((word >> 16) & 0xff) as u8);
        self.output.push(((word >> 24) & 0xff) as u8);
        proof {
            assert(self.output@ =~= old(self).output@ + word_to_bytes(word));
        }
    }

    /// Consumes up to four bytes from the front of the pending input and
    /// reassembles them little-endian into a word, zero-filling where the
    /// input ran short.
    pub fn read(&mut self) -> (r: u32)
        ensures
            r == input_word(old(self).input@),
            final(self).input@ == input_rest(old(self).input@),
            final(self).output@ == old(self).output@,
    {
        let b0 = self.next_byte();
        let b1 = self.next_byte();
        let b2 = self.next_byte();
        let b3 = self.next_byte();
        proof {
            assert(self.input@ =~= input_rest(old(self).input@));
        }
        b0 as u32 | (b1 as u32) << 8 | (b2 as u32) << 16 | (b3 as u32) << 24
    }

    /// Takes the next pending input byte, or 0 when none is pending.
    fn next_byte(&mut self) -> (b: u8)
        ensures
            b == input_byte(old(self).input@, 0),
            final(self).input@ == drop_first(old(self).input@),
            final(self).output@ == old(self).output@,
    {
        if self.input.len() > 0 {
            let b = self.input.remove(0);
            proof {
                assert(self.input@ =~= drop_first(old(self).input@));
            }
            b
        } else {
            0u8
        }
    }
}

} // verus!
