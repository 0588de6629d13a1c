//! The machine's flat byte store: 4096 bytes, with the built-in glyph font at
//! address 0 and the program image at the fixed load offset 0x200.

use vstd::prelude::*;

use crate::errors::{Fault, LoadError};

verus! {

/// Size of the address space in bytes.
pub const MEMORY_LEN: usize = 4096;

/// Address at which the program image is loaded and execution begins.
pub const PROGRAM_START: usize = 512;

/// Largest program image that fits between the load offset and the end of
/// memory.
pub const MAX_PROGRAM_LEN: usize = 3584;

/// The built-in font: 16 glyphs (hexadecimal digits 0 through F) of 5 bytes
/// each, one byte per row, the high nibble carrying the 4-pixel-wide shape.
pub open spec fn spec_font() -> Seq<u8> {
    seq![
        0xF0u8, 0x90, 0x90, 0x90, 0xF0, // 0
        0x20, 0x60, 0x20, 0x20, 0x70, // 1
        0xF0, 0x10, 0xF0, 0x80, 0xF0, // 2
        0xF0, 0x10, 0xF0, 0x10, 0xF0, // 3
        0x90, 0x90, 0xF0, 0x10, 0x10, // 4
        0xF0, 0x80, 0xF0, 0x10, 0xF0, // 5
        0xF0, 0x80, 0xF0, 0x90, 0xF0, // 6
        0xF0, 0x10, 0x20, 0x40, 0x40, // 7
        0xF0, 0x90, 0xF0, 0x90, 0xF0, // 8
        0xF0, 0x10, 0xF0, 0x10, 0xF0, // 9
        0xF0, 0x90, 0xF0, 0x90, 0x90, // A
        0xE0, 0x90, 0xE0, 0x90, 0xE0, // B
        0xF0, 0x80, 0x80, 0x80, 0xF0, // C
        0xE0, 0x90, 0x90, 0x90, 0xE0, // D
        0xF0, 0x80, 0xF0, 0x80, 0xF0, // E
        0xF0, 0x80, 0xF0, 0x80, 0x80, // F
    ]
}

/// The memory image at machine start: the font at address 0, the program at
/// the load offset, every other byte zero.
pub open spec fn spec_initial_memory(program: Seq<u8>) -> Seq<u8> {
    Seq::new(4096, |a: int| {
        if a < 80 {
            spec_font()[a]
        } else if 512 <= a < 512 + program.len() {
            program[a - 512]
        } else {
            0u8
        }
    })
}

/// The flat, bounds-checked byte store.
pub struct Memory {
    data: Vec<u8>,
}

impl View for Memory {
    type V = Seq<u8>;

    closed spec fn view(&self) -> Seq<u8> {
        self.data@
    }
}

impl Memory {
    /// The store always holds exactly the fixed address space.
    pub open spec fn wf(&self) -> bool {
        self@.len() == 4096
    }

    /// Builds the start-of-run memory image from a program no longer than the
    /// space above the load offset; a longer one is rejected.
    pub fn new(program: &[u8]) -> (r: Result<Memory, LoadError>)
        ensures
            program@.len() > 3584 ==> r == Err::<Memory, LoadError>(LoadError::ProgramTooLong),
            program@.len() <= 3584 ==> (r matches Ok(m) && m.wf() && m@
                == spec_initial_memory(program@)),
    {
        if program.len() > MAX_PROGRAM_LEN {
            return Err(LoadError::ProgramTooLong);
        }
        let glyphs: [u8; 80] = [
            0xF0, 0x90, 0x90, 0x90, 0xF0, 0x20, 0x60, 0x20, 0x20, 0x70, 0xF0, 0x10, 0xF0, 0x80,
            0xF0, 0xF0, 0x10, 0xF0, 0x10, 0xF0, 0x90, 0x90, 0xF0, 0x10, 0x10, 0xF0, 0x80, 0xF0,
            0x10, 0xF0, 0xF0, 0x80, 0xF0, 0x90, 0xF0, 0xF0, 0x10, 0x20, 0x40, 0x40, 0xF0, 0x90,
            0xF0, 0x90, 0xF0, 0xF0, 0x10, 0xF0, 0x10, 0xF0, 0xF0, 0x90, 0xF0, 0x90, 0x90, 0xE0,
            0x90, 0xE0, 0x90, 0xE0, 0xF0, 0x80, 0x80, 0x80, 0xF0, 0xE0, 0x90, 0x90, 0x90, 0xE0,
            0xF0, 0x80, 0xF0, 0x80, 0xF0, 0xF0, 0x80, 0xF0, 0x80, 0x80,
        ];
        proof {
            assert(glyphs@ =~= spec_font());
        }
        let mut data: Vec<u8> = Vec::new();
        let mut k: usize = 0;
        while k < 80
            invariant
                k <= 80,
                glyphs@ == spec_font(),
                data@ =~= spec_font().subrange(0, k as int),
            decreases 80 - k,
        {
            data.push(glyphs[k]);
            k = k + 1;
        }
        while data.len() < PROGRAM_START
            invariant
                80 <= data@.len() <= 512,
                data@.subrange(0, 80) =~= spec_font(),
                forall|a: int| 80 <= a < data@.len() ==> data@[a] == 0u8,
            decreases 512 - data@.len(),
        {
            data.push(0);
        }
        let mut k: usize = 0;
        while k < program.len()
            invariant
                k <= program@.len() <= 3584,
                data@.len() == 512 + k,
                data@.subrange(0, 80) =~= spec_font(),
                forall|a: int| 80 <= a < 512 ==> data@[a] == 0u8,
                data@.subrange(512, 512 + k as int) =~= program@.subrange(0, k as int),
            decreases program@.len() - k,
        {
            data.push(program[k]);
            k = k + 1;
        }
        while data.len() < MEMORY_LEN
            invariant
                512 + program@.len() <= data@.len() <= 4096,
                program@.len() <= 3584,
                data@.subrange(0, 80) =~= spec_font(),
                forall|a: int| 80 <= a < 512 ==> data@[a] == 0u8,
                data@.subrange(512, 512 + program@.len() as int) =~= program@,
                forall|a: int| 512 + program@.len() <= a < data@.len() ==> data@[a] == 0u8,
            decreases 4096 - data@.len(),
        {
            data.push(0);
        }
        let m = Memory { data };
        proof {
            assert(m@ =~= spec_initial_memory(program@));
        }
        Ok(m)
    }

    /// Checked read: the byte at `addr`, or a fault outside the address space.
    pub fn read(&self, addr: usize) -> (r: Result<u8, Fault>)
        requires
            self.wf(),
        ensures
            addr < 4096 ==> r == Ok::<u8, Fault>(self@[addr as int]),
            addr >= 4096 ==> r == Err::<u8, Fault>(Fault::AddressOutOfRange),
    {
        if addr < MEMORY_LEN {
            Ok(self.data[addr])
        } else {
            Err(Fault::AddressOutOfRange)
        }
    }

    /// Checked write: stores `value` at `addr`, or faults outside the address
    /// space, changing nothing.
    pub fn write(&mut self, addr: usize, value: u8) -> (r: Result<(), Fault>)
        requires
            old(self).wf(),
        ensures
            final(self).wf(),
            addr < 4096 ==> r == Ok::<(), Fault>(()) && final(self)@ == old(self)@.update(
                addr as int,
                value,
            ),
            addr >= 4096 ==> r == Err::<(), Fault>(Fault::AddressOutOfRange) && final(self)@
                == old(self)@,
    {
        if addr < MEMORY_LEN {
            self.data[addr] = value;
            Ok(())
        } else {
            Err(Fault::AddressOutOfRange)
        }
    }

    /// Unchecked read for callers that have already established the bound.
    pub(crate) fn byte_at(&self, addr: usize) -> (r: u8)
        requires
            self.wf(),
            addr < 4096,
        ensures
            r == self@[addr as int],
    {
        self.data[addr]
    }

    /// Unchecked write for callers that have already established the bound.
    pub(crate) fn set_byte(&mut self, addr: usize, value: u8)
        requires
            old(self).wf(),
            addr < 4096,
        ensures
            final(self).wf(),
            final(self)@ == old(self)@.update(addr as int, value),
    {
        self.data[addr] = value;
    }
}

} // verus!
