//! Byte-addressable storage for the machine: 4096 bytes holding the built-in
//! glyph font (addresses 0x000..0x050), the loaded program (0x200 and up) and
//! its working data.

use vstd::prelude::*;

verus! {

/// Number of addressable bytes.
pub const MEMORY_SIZE: usize = 4096;

/// The built-in font: sixteen 5-byte glyphs, one per hexadecimal digit,
/// stored in digit order starting at address 0.
pub open spec fn font_data() -> Seq<u8> {
    seq![
        0xF0u8, 0x90, 0x90, 0x90, 0xF0, // 0
        0x20, 0x60, 0x20, 0x20, 0x70, // 1
        0xF0, 0x10, 0xF0, 0x80, 0xF0, // 2
        0xF0, 0x10, 0xF0, 0x10, 0xF0, // 3
        0x90, 0x90, 0xF0, 0x10, 0x10, // 4
        0xF0, 0x80, 0xF0, 0x10, 0xF0, // 5
        0xF0, 0x80, 0xF0, 0x90, 0xF0, // 6
        0xF0, 0x10, 0x20, 0x40, 0x40, // 7
        0xF0, 0x90, 0xF0, 0x90, 0xF0, // 8
        0xF0, 0x90, 0xF0, 0x10, 0xF0, // 9
        0xF0, 0x90, 0xF0, 0x90, 0x90, // A
        0xE0, 0x90, 0xE0, 0x90, 0xE0, // B
        0xF0, 0x80, 0x80, 0x80, 0xF0, // C
        0xE0, 0x90, 0x90, 0x90, 0xE0, // D
        0xF0, 0x80, 0xF0, 0x80, 0xF0, // E
        0xF0, 0x80, 0xF0, 0x80, 0x80, // F
    ]
}

/// Byte `k` of digit `d`'s glyph.
pub open spec fn font_byte(d: int, k: int) -> u8 {
    font_data()[d * 5 + k]
}

/// Memory as it stands after construction or reset: the font at address 0,
/// zero everywhere else.
pub open spec fn initial_memory() -> Seq<u8> {
    Seq::new(MEMORY_SIZE as nat, |i: int| if i < 80 { font_data()[i] } else { 0u8 })
}

/// The font stands at the bottom of memory.
pub open spec fn font_installed(m: Seq<u8>) -> bool {
    forall|j: int| 0 <= j < 80 ==> #[trigger] m[j] == font_data()[j]
}

/// Memory `m` after copying `p` in starting at address `start`.
pub open spec fn loaded(m: Seq<u8>, p: Seq<u8>, start: int) -> Seq<u8> {
    Seq::new(m.len(), |i: int| if start <= i < start + p.len() { p[i - start] } else { m[i] })
}

/// A 16-bit word assembled big-endian from the bytes at `a` and `a + 1`.
pub open spec fn word_at(m: Seq<u8>, a: int) -> u16 {
    (m[a] * 256 + m[a + 1]) as u16
}

pub struct Memory {
    data: Vec<u8>,
}

impl View for Memory {
    type V = Seq<u8>;

    closed spec fn view(&self) -> Seq<u8> {
        self.data@
    }
}

/// Freshly constructed memory carries the glyph of every digit at its
/// font address.
pub proof fn lemma_initial_memory_font()
    ensures
        font_installed(initial_memory()),
{
}

impl Memory {
    /// Memory always holds exactly `MEMORY_SIZE` bytes.
    pub open spec fn wf(&self) -> bool {
        self@.len() == MEMORY_SIZE
    }

    pub fn new() -> (m: Memory)
        ensures
            m.wf(),
            m@ == initial_memory(),
    {
        let mut data: Vec<u8> = Vec::new();
        let mut i: usize = 0;
        while i < MEMORY_SIZE
            invariant
                i <= MEMORY_SIZE,
                data@.len() == i,
                forall|j: int| 0 <= j < i ==> data@[j] == 0u8,
            decreases MEMORY_SIZE - i,
        {
            data.push(0);
            i = i + 1;
        }
        let mut m = Memory { data };
        let font: Vec<u8> = font_vec();
        let mut k: usize = 0;
        while k < 80
            invariant
                k <= 80,
                font@ == font_data(),
                font@.len() == 80,
                m@.len() == MEMORY_SIZE,
                forall|j: int| 0 <= j < k ==> m@[j] == font_data()[j],
                forall|j: int| k <= j < MEMORY_SIZE ==> m@[j] == 0u8,
            decreases 80 - k,
        {
            let b: u8 = font[k];
            m.data.set(k, b);
            k = k + 1;
        }
        proof {
            assert(m@ =~= initial_memory());
        }
        m
    }

    pub fn len(&self) -> (n: usize)
        ensures
            n == self@.len(),
    {
        self.data.len()
    }

    /// Copy a program into memory starting at the given address.
    pub fn load_program(&mut self, program: &[u8], start_address: usize)
        requires
            old(self).wf(),
            start_address + program@.len() <= MEMORY_SIZE,
        ensures
            final(self).wf(),
            final(self)@ == loaded(old(self)@, program@, start_address as int),
    {
        let n: usize = program.len();
        let mut i: usize = 0;
        while i < n
            invariant
                i <= n,
                n == program@.len(),
                start_address + n <= MEMORY_SIZE,
                self@.len() == MEMORY_SIZE,
                forall|j: int| 0 <= j < i ==> self@[start_address + j] == program@[j],
                forall|j: int|
                    0 <= j < MEMORY_SIZE && !(start_address <= j < start_address + i) ==> self@[j]
                        == old(self)@[j],
            decreases n - i,
        {
            let b: u8 = program[i];
            self.data.set(start_address + i, b);
            i = i + 1;
        }
        proof {
            assert(self@ =~= loaded(old(self)@, program@, start_address as int));
        }
    }

    pub fn read_byte(&self, address: usize) -> (b: u8)
        requires
            self.wf(),
            address < MEMORY_SIZE,
        ensures
            b == self@[address as int],
    {
        self.data[address]
    }

    /// Assemble the two bytes at `address` and `address + 1` into a 16-bit
    /// word, the first byte giving the high-order bits.
    pub fn fetch_opcode(&self, address: usize) -> (w: u16)
        requires
            self.wf(),
            address + 1 < MEMORY_SIZE,
        ensures
            w == word_at(self@, address as int),
    {
        let high_byte: u16 = self.data[address] as u16;
        let low_byte: u16 = self.data[address + 1] as u16;
        proof {
            assert((high_byte << 8) | low_byte == high_byte * 256 + low_byte) by (bit_vector)
                requires
                    high_byte < 256 && low_byte < 256,
            ;
        }
        (high_byte << 8) | low_byte
    }

    pub fn write_byte(&mut self, address: usize, value: u8)
        requires
            old(self).wf(),
            address < MEMORY_SIZE,
        ensures
            final(self).wf(),
            final(self)@ == old(self)@.update(address as int, value),
    {
        self.data.set(address, value);
    }

    /// Zero every byte, then reinstall the font.
    pub fn reset(&mut self)
        ensures
            final(self).wf(),
            final(self)@ == initial_memory(),
    {
        *self = Memory::new();
    }
}

/// The font table as executable data, matching `font_data`.
fn font_vec() -> (v: Vec<u8>)
    ensures
        v@ == font_data(),
        v@.len() == 80,
{
    let mut v: Vec<u8> = Vec::new();
    v.push(0xF0);
    v.push(0x90);
    v.push(0x90);
    v.push(0x90);
    v.push(0xF0);
    v.push(0x20);
    v.push(0x60);
    v.push(0x20);
    v.push(0x20);
    v.push(0x70);
    v.push(0xF0);
    v.push(0x10);
    v.push(0xF0);
    v.push(0x80);
    v.push(0xF0);
    v.push(0xF0);
    v.push(0x10);
    v.push(0xF0);
    v.push(0x10);
    v.push(0xF0);
    v.push(0x90);
    v.push(0x90);
    v.push(0xF0);
    v.push(0x10);
    v.push(0x10);
    v.push(0xF0);
    v.push(0x80);
    v.push(0xF0);
    v.push(0x10);
    v.push(0xF0);
    v.push(0xF0);
    v.push(0x80);
    v.push(0xF0);
    v.push(0x90);
    v.push(0xF0);
    v.push(0xF0);
    v.push(0x10);
    v.push(0x20);
    v.push(0x40);
    v.push(0x40);
    v.push(0xF0);
    v.push(0x90);
    v.push(0xF0);
    v.push(0x90);
    v.push(0xF0);
    v.push(0xF0);
    v.push(0x90);
    v.push(0xF0);
    v.push(0x10);
    v.push(0xF0);
    v.push(0xF0);
    v.push(0x90);
    v.push(0xF0);
    v.push(0x90);
    v.push(0x90);
    v.push(0xE0);
    v.push(0x90);
    v.push(0xE0);
    v.push(0x90);
    v.push(0xE0);
    v.push(0xF0);
    v.push(0x80);
    v.push(0x80);
    v.push(0x80);
    v.push(0xF0);
    v.push(0xE0);
    v.push(0x90);
    v.push(0x90);
    v.push(0x90);
    v.push(0xE0);
    v.push(0xF0);
    v.push(0x80);
    v.push(0xF0);
    v.push(0x80);
    v.push(0xF0);
    v.push(0xF0);
    v.push(0x80);
    v.push(0xF0);
    v.push(0x80);
    v.push(0x80);
    proof {
        assert(v@ =~= font_data());
    }
    v
}

} // verus!
