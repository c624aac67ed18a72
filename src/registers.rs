use vstd::prelude::*;

verus! {

/// Number of general-purpose data registers (V0 to VF).
pub const DATA_REGISTERS: usize = 16;

/// Index of VF, the register that receives carry, borrow and collision flags.
pub const FLAG_REGISTER: usize = 0xF;

/// Address at which execution starts.
pub const START_ADDRESS: u16 = 0x200;

/// Width of one instruction in bytes.
pub const INSTRUCTION_LENGTH: u16 = 2;

/// Depth of the call stack.
pub const STACK_DEPTH: usize = 16;

/// The value VF takes for a flag.
pub open spec fn flag(condition: bool) -> u8 {
    if condition {
        1
    } else {
        0
    }
}

/// The register file: sixteen data registers, the address register `I`,
/// the delay and sound timers, the program counter and the stack pointer.
pub struct Registers {
    pub v: [u8; DATA_REGISTERS],
    pub i: u16,
    pub dt: u8,
    pub st: u8,
    pub pc: u16,
    pub sp: u8,
}

impl Default for Registers {
    fn default() -> (r: Self)
        ensures
            r.wf(),
            r.is_reset(),
    {
        let r = Registers { v: [0u8; DATA_REGISTERS], i: 0, dt: 0, st: 0, pc: START_ADDRESS, sp: 0 };
        assert(r.v@ =~= Seq::new(DATA_REGISTERS as nat, |n: int| 0u8));
        r
    }
}

impl Registers {
    /// The stack pointer never exceeds the depth of the call stack.
    pub open spec fn wf(&self) -> bool {
        self.sp <= STACK_DEPTH
    }

    /// All registers hold zero except the program counter, which holds the
    /// start address.
    pub open spec fn is_reset(&self) -> bool {
        &&& self.v@ == Seq::new(DATA_REGISTERS as nat, |n: int| 0u8)
        &&& self.i == 0
        &&& self.dt == 0
        &&& self.st == 0
        &&& self.pc == START_ADDRESS
        &&& self.sp == 0
    }

    pub fn new() -> (r: Self)
        ensures
            r.wf(),
            r.is_reset(),
    {
        Self::default()
    }

    pub fn get_v(&self, n: usize) -> (r: u8)
        requires
            n < DATA_REGISTERS,
        ensures
            r == self.v@[n as int],
    {
        self.v[n]
    }

    pub fn set_v(&mut self, n: usize, value: u8)
        requires
            n < DATA_REGISTERS,
        ensures
            final(self).v@ == old(self).v@.update(n as int, value),
            *final(self) == (Registers { v: final(self).v, ..*old(self) }),
    {
        self.v[n] = value;
    }

    pub fn get_i(&self) -> (r: u16)
        ensures
            r == self.i,
    {
        self.i
    }

    pub fn set_i(&mut self, addr: u16)
        ensures
            *final(self) == (Registers { i: addr, ..*old(self) }),
    {
        self.i = addr;
    }

    pub fn get_dt(&self) -> (r: u8)
        ensures
            r == self.dt,
    {
        self.dt
    }

    pub fn set_dt(&mut self, value: u8)
        ensures
            *final(self) == (Registers { dt: value, ..*old(self) }),
    {
        self.dt = value;
    }

    pub fn dec_dt(&mut self)
        requires
            old(self).dt > 0,
        ensures
            *final(self) == (Registers { dt: (old(self).dt - 1) as u8, ..*old(self) }),
    {
        self.dt -= 1;
    }

    pub fn get_st(&self) -> (r: u8)
        ensures
            r == self.st,
    {
        self.st
    }

    pub fn set_st(&mut self, value: u8)
        ensures
            *final(self) == (Registers { st: value, ..*old(self) }),
    {
        self.st = value;
    }

    pub fn dec_st(&mut self)
        requires
            old(self).st > 0,
        ensures
            *final(self) == (Registers { st: (old(self).st - 1) as u8, ..*old(self) }),
    {
        self.st -= 1;
    }

    pub fn get_pc(&self) -> (r: u16)
        ensures
            r == self.pc,
    {
        self.pc
    }

    pub fn set_pc(&mut self, addr: u16)
        ensures
            *final(self) == (Registers { pc: addr, ..*old(self) }),
    {
        self.pc = addr;
    }

    /// Moves the program counter past one instruction.
    pub fn advance_pc(&mut self)
        requires
            old(self).pc + INSTRUCTION_LENGTH <= u16::MAX,
        ensures
            *final(self) == (Registers { pc: (old(self).pc + INSTRUCTION_LENGTH) as u16, ..*old(self) }),
    {
        self.pc += INSTRUCTION_LENGTH;
    }

    pub fn get_sp(&self) -> (r: u8)
        ensures
            r == self.sp,
    {
        self.sp
    }

    pub fn inc_sp(&mut self)
        requires
            old(self).sp < STACK_DEPTH,
        ensures
            *final(self) == (Registers { sp: (old(self).sp + 1) as u8, ..*old(self) }),
    {
        self.sp += 1;
    }

    pub fn dec_sp(&mut self)
        requires
            old(self).sp > 0,
        ensures
            *final(self) == (Registers { sp: (old(self).sp - 1) as u8, ..*old(self) }),
    {
        self.sp -= 1;
    }

    /// Sets VF to 1 if `condition` holds and to 0 otherwise.
    pub fn set_carry_if(&mut self, condition: bool)
        ensures
            final(self).v@ == old(self).v@.update(FLAG_REGISTER as int, flag(condition)),
            *final(self) == (Registers { v: final(self).v, ..*old(self) }),
    {
        self.v[FLAG_REGISTER] = if condition {
            1
        } else {
            0
        };
    }
}

/// Writing a data register and reading it back gives the value written.
pub proof fn lemma_register_round_trip(regs: Registers, n: int, value: u8)
    requires
        0 <= n < DATA_REGISTERS,
    ensures
        regs.v@.update(n, value)[n] == value,
{
}

} // verus!
