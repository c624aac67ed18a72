use vstd::prelude::*;

verus! {

/// Size of the address space in bytes.
pub const MEMORY_SIZE: usize = 4096;

/// Address at which programs are loaded.
pub const PROGRAM_LOAD_ADDRESS: usize = 0x200;

/// Address of the first byte of the built-in font.
pub const FONT_START: usize = 0x50;

/// Size of the built-in font: sixteen glyphs of five bytes each.
pub const FONT_SIZE: usize = 80;

/// Bytes per glyph of the built-in font.
pub const GLYPH_SIZE: usize = 5;

/// The built-in hexadecimal font, glyphs 0 to F, five rows each.
pub open spec fn font() -> Seq<u8> {
    seq![
        0xf0u8, 0x90, 0x90, 0x90, 0xf0, // 0
        0x20, 0x60, 0x20, 0x20, 0x70, // 1
        0xf0, 0x10, 0xf0, 0x80, 0xf0, // 2
        0xf0, 0x10, 0xf0, 0x10, 0xf0, // 3
        0x90, 0x90, 0xf0, 0x10, 0x10, // 4
        0xf0, 0x80, 0xf0, 0x10, 0xf0, // 5
        0xf0, 0x80, 0xf0, 0x90, 0xf0, // 6
        0xf0, 0x10, 0x20, 0x40, 0x40, // 7
        0xf0, 0x90, 0xf0, 0x90, 0xf0, // 8
        0xf0, 0x90, 0xf0, 0x10, 0xf0, // 9
        0xf0, 0x90, 0xf0, 0x90, 0x90, // A
        0xe0, 0x90, 0xe0, 0x90, 0xe0, // B
        0xf0, 0x80, 0x80, 0x80, 0xf0, // C
        0xe0, 0x90, 0x90, 0x90, 0xe0, // D
        0xf0, 0x80, 0xf0, 0x80, 0xf0, // E
        0xf0, 0x80, 0xf0, 0x80, 0x80, // F
    ]
}

/// Memory as it is on power-up: the font at `FONT_START`, zero elsewhere.
pub open spec fn initial_memory() -> Seq<u8> {
    Seq::new(
        MEMORY_SIZE as nat,
        |i: int|
            if FONT_START <= i < FONT_START + FONT_SIZE {
                font()[i - FONT_START]
            } else {
                0u8
            },
    )
}

/// The flat 4096-byte address space.
pub struct Memory {
    pub memory: [u8; MEMORY_SIZE],
}

/// Writes the built-in font into memory at `FONT_START`.
pub fn copy_default_char_set(memory: &mut Memory)
    ensures
        forall|i: int|
            0 <= i < MEMORY_SIZE ==> #[trigger] final(memory)@[i] == if FONT_START <= i < FONT_START
                + FONT_SIZE {
                font()[i - FONT_START]
            } else {
                old(memory)@[i]
            },
{
    let glyphs: [u8; FONT_SIZE] = [
        0xf0, 0x90, 0x90, 0x90, 0xf0, // 0
        0x20, 0x60, 0x20, 0x20, 0x70, // 1
        0xf0, 0x10, 0xf0, 0x80, 0xf0, // 2
        0xf0, 0x10, 0xf0, 0x10, 0xf0, // 3
        0x90, 0x90, 0xf0, 0x10, 0x10, // 4
        0xf0, 0x80, 0xf0, 0x10, 0xf0, // 5
        0xf0, 0x80, 0xf0, 0x90, 0xf0, // 6
        0xf0, 0x10, 0x20, 0x40, 0x40, // 7
        0xf0, 0x90, 0xf0, 0x90, 0xf0, // 8
        0xf0, 0x90, 0xf0, 0x10, 0xf0, // 9
        0xf0, 0x90, 0xf0, 0x90, 0x90, // A
        0xe0, 0x90, 0xe0, 0x90, 0xe0, // B
        0xf0, 0x80, 0x80, 0x80, 0xf0, // C
        0xe0, 0x90, 0x90, 0x90, 0xe0, // D
        0xf0, 0x80, 0xf0, 0x80, 0xf0, // E
        0xf0, 0x80, 0xf0, 0x80, 0x80, // F
    ];
    assert(glyphs@ =~= font());
    let mut index: usize = FONT_START;
    for k in 0..FONT_SIZE
        invariant
            glyphs@ == font(),
            index == FONT_START + k,
            forall|i: int|
                0 <= i < MEMORY_SIZE ==> #[trigger] memory@[i] == if FONT_START <= i < FONT_START
                    + k {
                    font()[i - FONT_START]
                } else {
                    old(memory)@[i]
                },
    {
        memory.set(index, glyphs[k]);
        index += 1;
    }
}

impl Memory {
    pub open spec fn view(&self) -> Seq<u8> {
        self.memory@
    }

    /// Memory holding the built-in font and zero everywhere else.
    pub fn new() -> (r: Self)
        ensures
            r@ == initial_memory(),
    {
        let mut memory = Memory { memory: [0u8; MEMORY_SIZE] };
        copy_default_char_set(&mut memory);
        assert(memory@ =~= initial_memory());
        memory
    }

    pub fn set(&mut self, index: usize, value: u8)
        requires
            index < MEMORY_SIZE,
        ensures
            final(self)@ == old(self)@.update(index as int, value),
    {
        self.memory[index] = value;
    }

    pub fn get(&self, index: usize) -> (r: u8)
        requires
            index < MEMORY_SIZE,
        ensures
            r == self@[index as int],
    {
        self.memory[index]
    }

    /// The `bytes` bytes starting at `start`.
    pub fn read(&self, start: usize, bytes: u8) -> (r: &[u8])
        requires
            start + bytes <= MEMORY_SIZE,
        ensures
            r@ == self@.subrange(start as int, start + bytes),
    {
        vstd::slice::slice_subrange(self.memory.as_slice(), start, start + bytes as usize)
    }

    /// The big-endian 16-bit word at `start`.
    pub fn read_opcode(&self, start: usize) -> (r: u16)
        requires
            start + 2 <= MEMORY_SIZE,
        ensures
            r == self@[start as int] * 256 + self@[start + 1],
    {
        let bytes = self.read(start, 2);
        let hi = bytes[0];
        let lo = bytes[1];
        assert((hi as u16) << 8 | lo as u16 == hi * 256 + lo) by (bit_vector);
        (hi as u16) << 8 | lo as u16
    }
}

} // verus!
