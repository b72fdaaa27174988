//! The console's flat 64 KiB address space.
//!
//! Every 16-bit address is valid; no read or write can fail. The display
//! region is mirrored into a double buffer on every write, and reads always
//! see the primary store. Device readers obtain snapshot copies of their
//! regions rather than live pointers.

use vstd::prelude::*;

verus! {

pub const ROM_START: usize = 0x0000;
pub const ROM_SIZE: usize = 0x8000;
pub const RAM_START: usize = 0x8000;
pub const RAM_SIZE: usize = 0x7000;
pub const DISPLAY_START: usize = 0xF000;
pub const DISPLAY_SIZE: usize = 0x0C00;
pub const AUDIO_START: usize = 0xFC00;
pub const AUDIO_SIZE: usize = 0x0100;
pub const MEMORY_SIZE: usize = 0x10000;

/// The 64 KiB store, plus a double buffer that mirrors the display region.
pub struct Memory {
    data: Vec<u8>,
    display_buffer: Vec<u8>,
}

impl View for Memory {
    type V = Seq<u8>;

    closed spec fn view(&self) -> Seq<u8> {
        self.data@
    }
}

impl Memory {
    /// Well-formed: the full address space is allocated and the double buffer
    /// mirrors the display region byte for byte.
    pub closed spec fn wf(&self) -> bool {
        &&& self.data@.len() == MEMORY_SIZE
        &&& self.display_buffer@.len() == DISPLAY_SIZE
        &&& self.display_buffer@ == self.data@.subrange(
            DISPLAY_START as int,
            DISPLAY_START + DISPLAY_SIZE,
        )
    }

    /// A fresh memory holds zero at every address.
    pub fn new() -> (m: Memory)
        ensures
            m.wf(),
            m@ == Seq::new(MEMORY_SIZE as nat, |i: int| 0u8),
    {
        let data: Vec<u8> = vec![0u8; MEMORY_SIZE];
        let display_buffer: Vec<u8> = vec![0u8; DISPLAY_SIZE];
        let m = Memory { data, display_buffer };
        proof {
            assert(m.data@ =~= Seq::new(MEMORY_SIZE as nat, |i: int| 0u8));
            assert(m.display_buffer@ =~= m.data@.subrange(
                DISPLAY_START as int,
                DISPLAY_START + DISPLAY_SIZE,
            ));
        }
        m
    }

    /// Reads the byte at `address`. Every address is valid.
    pub fn read(&self, address: u16) -> (b: u8)
        requires
            self.wf(),
        ensures
            b == self@[address as int],
    {
        self.data[address as usize]
    }

    /// Writes `value` at `address`; a write into the display region also
    /// updates the double buffer so the mirror invariant is kept.
    pub fn write(&mut self, address: u16, value: u8)
        requires
            old(self).wf(),
        ensures
            final(self).wf(),
            final(self)@ == old(self)@.update(address as int, value),
    {
        let idx = address as usize;
        self.data[idx] = value;
        if idx >= DISPLAY_START && idx < DISPLAY_START + DISPLAY_SIZE {
            let off = idx - DISPLAY_START;
            self.display_buffer[off] = value;
        }
        proof {
            assert(self.display_buffer@ =~= self.data@.subrange(
                DISPLAY_START as int,
                DISPLAY_START + DISPLAY_SIZE,
            ));
        }
    }

    /// Copies the program image into memory starting at address 0, truncating
    /// silently at the ROM size. Bytes past the image keep their old values.
    pub fn load_program(&mut self, program: &[u8])
        requires
            old(self).wf(),
        ensures
            final(self).wf(),
            final(self)@.len() == MEMORY_SIZE,
            forall|i: int|
                0 <= i < MEMORY_SIZE ==> final(self)@[i] == if i < program@.len() && i < ROM_SIZE {
                    program@[i]
                } else {
                    old(self)@[i]
                },
    {
        let n = if program.len() < ROM_SIZE {
            program.len()
        } else {
            ROM_SIZE
        };
        let mut i: usize = 0;
        while i < n
            invariant
                n <= program@.len(),
                n <= ROM_SIZE,
                n == if program@.len() < ROM_SIZE { program@.len() as int } else { ROM_SIZE as int },
                i <= n,
                self.wf(),
                self@.len() == MEMORY_SIZE,
                forall|j: int|
                    0 <= j < MEMORY_SIZE ==> self@[j] == if j < i {
                        program@[j]
                    } else {
                        old(self)@[j]
                    },
            decreases n - i,
        {
            let b = program[i];
            self.data[i] = b;
            proof {
                assert(self.display_buffer@ =~= self.data@.subrange(
                    DISPLAY_START as int,
                    DISPLAY_START + DISPLAY_SIZE,
                ));
            }
            i = i + 1;
        }
    }

    /// A snapshot copy of the display region, read from the primary store.
    pub fn get_display_buffer(&self) -> (r: Vec<u8>)
        requires
            self.wf(),
        ensures
            r@ == self@.subrange(DISPLAY_START as int, DISPLAY_START + DISPLAY_SIZE),
    {
        self.copy_region(DISPLAY_START, DISPLAY_SIZE)
    }

    /// A snapshot copy of the audio register bank, read from the primary store.
    pub fn get_audio_buffer(&self) -> (r: Vec<u8>)
        requires
            self.wf(),
        ensures
            r@ == self@.subrange(AUDIO_START as int, AUDIO_START + AUDIO_SIZE),
    {
        self.copy_region(AUDIO_START, AUDIO_SIZE)
    }

    fn copy_region(&self, start: usize, size: usize) -> (r: Vec<u8>)
        requires
            self.wf(),
            start + size <= MEMORY_SIZE,
        ensures
            r@ == self@.subrange(start as int, start + size),
    {
        let mut r: Vec<u8> = Vec::new();
        let mut i: usize = 0;
        while i < size
            invariant
                self.wf(),
                start + size <= MEMORY_SIZE,
                i <= size,
                r@ == self@.subrange(start as int, start + i),
            decreases size - i,
        {
            let b = self.data[start + i];
            r.push(b);
            proof {
                assert(r@ =~= self@.subrange(start as int, start + i + 1));
            }
            i = i + 1;
        }
        r
    }

    /// Copies the double buffer back into the display region. Because every
    /// write keeps the mirror in step, this never changes what a read sees.
    pub fn swap_display_buffer(&mut self)
        requires
            old(self).wf(),
        ensures
            final(self).wf(),
            final(self)@ == old(self)@,
    {
        let mut i: usize = 0;
        while i < DISPLAY_SIZE
            invariant
                self.wf(),
                self@ == old(self)@,
                self.display_buffer@ == old(self).display_buffer@,
            decreases DISPLAY_SIZE - i,
        {
            let b = self.display_buffer[i];
            self.data[DISPLAY_START + i] = b;
            proof {
                assert(old(self).display_buffer@[i as int] == old(self)@[DISPLAY_START + i]);
                assert(self.data@ =~= old(self)@);
                assert(self.display_buffer@ =~= self.data@.subrange(
                    DISPLAY_START as int,
                    DISPLAY_START + DISPLAY_SIZE,
                ));
            }
            i = i + 1;
        }
    }
}

} // verus!
