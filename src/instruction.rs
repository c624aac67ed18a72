use vstd::prelude::*;

verus! {

/// A 16-bit opcode split into the fields the instruction set reads.
pub struct Instruction {
    /// The four nibbles, most significant first.
    pub nibbles: (u8, u8, u8, u8),
    /// The low twelve bits: an address.
    pub addr: u16,
    /// The low byte: an immediate value.
    pub byte: u8,
    /// The second nibble: a register index.
    pub x: usize,
    /// The third nibble: a register index.
    pub y: usize,
    /// The last nibble: a sprite height or a sub-opcode.
    pub nibble: u8,
}

/// The fields of `opcode`.
pub open spec fn decode(opcode: u16) -> Instruction {
    let n0 = (opcode / 0x1000) as u8;
    let n1 = (opcode / 0x100 % 0x10) as u8;
    let n2 = (opcode / 0x10 % 0x10) as u8;
    let n3 = (opcode % 0x10) as u8;
    Instruction {
        nibbles: (n0, n1, n2, n3),
        addr: opcode % 0x1000,
        byte: (opcode % 0x100) as u8,
        x: n1 as usize,
        y: n2 as usize,
        nibble: n3,
    }
}

impl Instruction {
    /// The fields are consistent with one another, as `parse` makes them.
    pub open spec fn wf(&self) -> bool {
        &&& self.nibbles.0 < 16
        &&& self.nibbles.1 < 16
        &&& self.nibbles.2 < 16
        &&& self.nibbles.3 < 16
        &&& self.x == self.nibbles.1
        &&& self.y == self.nibbles.2
        &&& self.nibble == self.nibbles.3
        &&& self.addr < 0x1000
    }

    /// Splits `instruction` into its fields.
    pub fn parse(instruction: u16) -> (r: Self)
        ensures
            r == decode(instruction),
            r.wf(),
    {
        let nibbles = (
            ((instruction & 0xF000) >> 12) as u8,
            ((instruction & 0x0F00) >> 8) as u8,
            ((instruction & 0x00F0) >> 4) as u8,
            (instruction & 0x000F) as u8,
        );
        assert((instruction & 0xF000) >> 12 == instruction / 0x1000) by (bit_vector);
        assert((instruction & 0x0F00) >> 8 == instruction / 0x100 % 0x10) by (bit_vector);
        assert((instruction & 0x00F0) >> 4 == instruction / 0x10 % 0x10) by (bit_vector);
        assert(instruction & 0x000F == instruction % 0x10) by (bit_vector);
        assert(instruction & 0x0FFF == instruction % 0x1000) by (bit_vector);
        assert(instruction & 0x00FF == instruction % 0x100) by (bit_vector);
        Instruction {
            nibbles,
            addr: (instruction & 0x0FFF),
            nibble: nibbles.3,
            byte: (instruction & 0x00FF) as u8,
            x: nibbles.1 as usize,
            y: nibbles.2 as usize,
        }
    }
}

impl From<u16> for Instruction {
    fn from(instruction: u16) -> (r: Self)
        ensures
            r == decode(instruction),
    {
        Instruction::parse(instruction)
    }
}

impl vstd::std_specs::convert::FromSpecImpl<u16> for Instruction {
    open spec fn obeys_from_spec() -> bool {
        true
    }

    open spec fn from_spec(v: u16) -> Self {
        decode(v)
    }
}

} // verus!
