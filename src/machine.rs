use vstd::prelude::*;
use crate::display::{blank_screen, collides, drawn};
use crate::instruction::{decode, Instruction};
use crate::keyboard::{first_key_down, NUM_KEYS};
use crate::memory::{GLYPH_SIZE, MEMORY_SIZE};
use crate::registers::{flag, FLAG_REGISTER, INSTRUCTION_LENGTH, STACK_DEPTH};

verus! {

/// Everything one instruction can read or change: memory, the register
/// file, the call stack, the keypad and the framebuffer.
pub struct MachineState {
    pub ram: Seq<u8>,
    pub v: Seq<u8>,
    pub i: u16,
    pub dt: u8,
    pub st: u8,
    pub pc: u16,
    pub sp: u8,
    pub stack: Seq<u16>,
    pub keys: Seq<bool>,
    pub screen: Seq<Seq<bool>>,
}

/// A condition under which the machine cannot go on.
#[derive(Clone, Copy, Debug, PartialEq, Eq, Structural)]
pub enum Fault {
    /// A call with all sixteen stack slots in use.
    StackOverflow,
    /// A return with the call stack empty.
    StackUnderflow,
    /// An instruction fetch, sprite read or store that reaches past the end
    /// of memory.
    AddressOutOfRange,
    /// A key test on a register that holds no key number.
    KeyOutOfRange,
}

/// `s` with data register `x` set to `value`.
pub open spec fn with_v(s: MachineState, x: int, value: u8) -> MachineState {
    MachineState { v: s.v.update(x, value), ..s }
}

/// `s` with VF set to the flag for `condition`, then register `x` set to
/// `value` (so that `x == 0xF` keeps `value`).
pub open spec fn with_flag_then_v(s: MachineState, condition: bool, x: int, value: u8) -> MachineState {
    with_v(with_v(s, FLAG_REGISTER as int, flag(condition)), x, value)
}

/// `s` with the next instruction skipped when `condition` holds.
pub open spec fn skip_if(s: MachineState, condition: bool) -> MachineState {
    if condition {
        MachineState { pc: (s.pc + INSTRUCTION_LENGTH) as u16, ..s }
    } else {
        s
    }
}

/// Opcodes 00E0 (clear the screen) and 00EE (return); other 0nnn opcodes do nothing.
pub open spec fn execute_system(s: MachineState, ins: Instruction) -> Result<MachineState, Fault> {
    if ins.nibbles == (0u8, 0u8, 0xEu8, 0u8) {
        Ok(MachineState { screen: blank_screen(), ..s })
    } else if ins.nibbles == (0u8, 0u8, 0xEu8, 0xEu8) {
        if s.sp == 0 {
            Err(Fault::StackUnderflow)
        } else {
            Ok(MachineState { pc: s.stack[s.sp - 1], sp: (s.sp - 1) as u8, ..s })
        }
    } else {
        Ok(s)
    }
}

/// Opcode 2nnn: push the return address and jump.
pub open spec fn execute_call(s: MachineState, addr: u16) -> Result<MachineState, Fault> {
    if s.sp >= STACK_DEPTH {
        Err(Fault::StackOverflow)
    } else {
        Ok(
            MachineState {
                stack: s.stack.update(s.sp as int, s.pc),
                sp: (s.sp + 1) as u8,
                pc: addr,
                ..s
            },
        )
    }
}

/// Opcodes 8xyN: register-to-register arithmetic and logic. Carry and
/// borrow are computed on the full values before truncation to a byte.
pub open spec fn execute_alu(s: MachineState, x: int, y: int, op: u8) -> MachineState {
    let vx = s.v[x];
    let vy = s.v[y];
    if op == 0 {
        with_v(s, x, vy)
    } else if op == 1 {
        with_v(s, x, vx | vy)
    } else if op == 2 {
        with_v(s, x, vx & vy)
    } else if op == 3 {
        with_v(s, x, vx ^ vy)
    } else if op == 4 {
        with_flag_then_v(s, vx + vy > 255, x, ((vx + vy) % 256) as u8)
    } else if op == 5 {
        with_flag_then_v(s, vx > vy, x, ((vx - vy) % 256) as u8)
    } else if op == 6 {
        with_flag_then_v(s, vx % 2 == 1, x, vx / 2)
    } else if op == 7 {
        with_flag_then_v(s, vy > vx, x, ((vy - vx) % 256) as u8)
    } else if op == 0xE {
        with_flag_then_v(s, vx >= 128, x, ((vx * 2) % 256) as u8)
    } else {
        s
    }
}

/// Opcode Dxyn: XOR the `n` bytes at `I` onto the screen at `(Vx, Vy)` and
/// set VF to whether a set pixel was turned off.
pub open spec fn execute_draw(s: MachineState, x: int, y: int, n: u8) -> Result<MachineState, Fault> {
    if s.i + n > MEMORY_SIZE {
        Err(Fault::AddressOutOfRange)
    } else {
        let sprite = s.ram.subrange(s.i as int, s.i + n);
        let px = s.v[x] as int;
        let py = s.v[y] as int;
        Ok(
            MachineState {
                screen: drawn(s.screen, px, py, sprite),
                v: s.v.update(FLAG_REGISTER as int, flag(collides(s.screen, px, py, sprite))),
                ..s
            },
        )
    }
}

/// Opcodes Ex9E and ExA1: skip when key `Vx` is (not) down.
pub open spec fn execute_key_skip(s: MachineState, x: int, low: (u8, u8)) -> Result<MachineState, Fault> {
    let vx = s.v[x];
    if low == (9u8, 0xEu8) || low == (0xAu8, 1u8) {
        if vx >= NUM_KEYS {
            Err(Fault::KeyOutOfRange)
        } else if low == (9u8, 0xEu8) {
            Ok(skip_if(s, s.keys[vx as int]))
        } else {
            Ok(skip_if(s, !s.keys[vx as int]))
        }
    } else {
        Ok(s)
    }
}

/// The address register after adding `vx`, wrapping at 16 bits.
pub open spec fn add_to_i(i: u16, vx: u8) -> u16 {
    ((i + vx) % 0x10000) as u16
}

/// Opcodes FxNN: timers, key wait, the address register, BCD and register
/// block transfers.
pub open spec fn execute_misc(s: MachineState, x: int, low: (u8, u8)) -> Result<MachineState, Fault> {
    let vx = s.v[x];
    if low == (0u8, 7u8) {
        Ok(with_v(s, x, s.dt))
    } else if low == (0u8, 0xAu8) {
        match first_key_down(s.keys, 0) {
            Some(k) => Ok(with_v(s, x, k as u8)),
            None => Ok(MachineState { pc: (s.pc - INSTRUCTION_LENGTH) as u16, ..s }),
        }
    } else if low == (1u8, 5u8) {
        Ok(MachineState { dt: vx, ..s })
    } else if low == (1u8, 8u8) {
        Ok(MachineState { st: vx, ..s })
    } else if low == (1u8, 0xEu8) {
        let sum = add_to_i(s.i, vx);
        Ok(MachineState { i: sum, v: s.v.update(FLAG_REGISTER as int, flag(sum > 0x8000)), ..s })
    } else if low == (2u8, 9u8) {
        Ok(MachineState { i: (vx * GLYPH_SIZE) as u16, ..s })
    } else if low == (3u8, 3u8) {
        if s.i + 3 > MEMORY_SIZE {
            Err(Fault::AddressOutOfRange)
        } else {
            Ok(
                MachineState {
                    ram: s.ram.update(s.i as int, vx / 100).update(s.i + 1, vx % 100 / 10).update(
                        s.i + 2,
                        vx % 10,
                    ),
                    ..s
                },
            )
        }
    } else if low == (5u8, 5u8) {
        if s.i + x + 1 > MEMORY_SIZE {
            Err(Fault::AddressOutOfRange)
        } else {
            Ok(
                MachineState {
                    ram: Seq::new(
                        MEMORY_SIZE as nat,
                        |a: int|
                            if s.i <= a <= s.i + x {
                                s.v[a - s.i]
                            } else {
                                s.ram[a]
                            },
                    ),
                    ..s
                },
            )
        }
    } else if low == (6u8, 5u8) {
        if s.i + x + 1 > MEMORY_SIZE {
            Err(Fault::AddressOutOfRange)
        } else {
            Ok(
                MachineState {
                    v: Seq::new(
                        s.v.len(),
                        |k: int|
                            if k <= x {
                                s.ram[s.i + k]
                            } else {
                                s.v[k]
                            },
                    ),
                    ..s
                },
            )
        }
    } else {
        Ok(s)
    }
}

/// Executes `ins` on `s`, whose program counter already points past it.
/// `rnd` is the random byte that Cxkk masks. Opcodes outside the
/// instruction set change nothing.
pub open spec fn execute(s: MachineState, ins: Instruction, rnd: u8) -> Result<MachineState, Fault> {
    let x = ins.x as int;
    let y = ins.y as int;
    let vx = s.v[x];
    let vy = s.v[y];
    let family = ins.nibbles.0;
    if family == 0 {
        execute_system(s, ins)
    } else if family == 1 {
        Ok(MachineState { pc: ins.addr, ..s })
    } else if family == 2 {
        execute_call(s, ins.addr)
    } else if family == 3 {
        Ok(skip_if(s, vx == ins.byte))
    } else if family == 4 {
        Ok(skip_if(s, vx != ins.byte))
    } else if family == 5 {
        Ok(if ins.nibble == 0 { skip_if(s, vx == vy) } else { s })
    } else if family == 6 {
        Ok(with_v(s, x, ins.byte))
    } else if family == 7 {
        Ok(with_v(s, x, ((vx + ins.byte) % 256) as u8))
    } else if family == 8 {
        Ok(execute_alu(s, x, y, ins.nibble))
    } else if family == 9 {
        Ok(if ins.nibble == 0 { skip_if(s, vx != vy) } else { s })
    } else if family == 0xA {
        Ok(MachineState { i: ins.addr, ..s })
    } else if family == 0xB {
        Ok(MachineState { pc: (s.v[0] + ins.addr) as u16, ..s })
    } else if family == 0xC {
        Ok(with_v(s, x, rnd & ins.byte))
    } else if family == 0xD {
        execute_draw(s, x, y, ins.nibble)
    } else if family == 0xE {
        execute_key_skip(s, x, (ins.nibbles.2, ins.nibbles.3))
    } else {
        execute_misc(s, x, (ins.nibbles.2, ins.nibbles.3))
    }
}

/// The big-endian opcode at the program counter.
pub open spec fn fetch(s: MachineState) -> u16 {
    (s.ram[s.pc as int] * 256 + s.ram[s.pc + 1]) as u16
}

/// One fetch-decode-execute cycle: fetch the opcode at the program counter,
/// move the counter past it, then execute it.
pub open spec fn step(s: MachineState, rnd: u8) -> Result<MachineState, Fault> {
    if s.pc + INSTRUCTION_LENGTH > MEMORY_SIZE {
        Err(Fault::AddressOutOfRange)
    } else {
        execute(
            MachineState { pc: (s.pc + INSTRUCTION_LENGTH) as u16, ..s },
            decode(fetch(s)),
            rnd,
        )
    }
}

/// A call that returned `r` and left the machine in `post`, starting from
/// `pre`, did what `expected` says: on success the machine is in the
/// expected state; on a fault nothing changed.
pub open spec fn follows(
    pre: MachineState,
    post: MachineState,
    r: Result<(), Fault>,
    expected: Result<MachineState, Fault>,
) -> bool {
    match expected {
        Ok(s) => r is Ok && post == s,
        Err(f) => r == Err::<(), Fault>(f) && post == pre,
    }
}

/// A call made while all stack slots are in use faults with a stack
/// overflow and changes nothing; one made with a free slot succeeds and
/// moves the stack pointer up by one. A return made with an empty stack
/// faults with a stack underflow.
pub proof fn lemma_stack_faults(s: MachineState, rnd: u8)
    requires
        s.pc + INSTRUCTION_LENGTH <= MEMORY_SIZE,
    ensures
        decode(fetch(s)).nibbles.0 == 2 && s.sp >= STACK_DEPTH ==> step(s, rnd) == Err::<
            MachineState,
            Fault,
        >(Fault::StackOverflow),
        decode(fetch(s)).nibbles.0 == 2 && s.sp < STACK_DEPTH ==> (step(s, rnd) matches Ok(t) && t.sp
            == s.sp + 1),
        fetch(s) == 0x00EE && s.sp == 0 ==> step(s, rnd) == Err::<MachineState, Fault>(
            Fault::StackUnderflow,
        ),
{
    assert(decode(0x00EE).nibbles == (0u8, 0u8, 0xEu8, 0xEu8));
}

} // verus!
