use vstd::prelude::*;
use crate::display::{blank_screen, collides, drawn, Screen, HEIGHT, WIDTH};
use crate::instruction::Instruction;
use crate::keyboard::{Keyboard, NUM_KEYS};
use crate::machine::{
    execute, execute_alu, execute_call, execute_draw, execute_key_skip, execute_misc,
    execute_system, follows, step, Fault, MachineState,
};
use crate::memory::{initial_memory, Memory, GLYPH_SIZE, MEMORY_SIZE, PROGRAM_LOAD_ADDRESS};
use crate::registers::{Registers, DATA_REGISTERS, INSTRUCTION_LENGTH, START_ADDRESS, STACK_DEPTH};
use crate::stack::Stack;

verus! {

/// Largest ROM that fits between the load address and the end of memory.
pub const MAX_ROM_SIZE: usize = MEMORY_SIZE - PROGRAM_LOAD_ADDRESS;

/// The audio output. It is told once per timer tick whether the tone
/// should sound.
pub trait Speaker {
    fn beep(&mut self, status: bool);
}

/// The machine on power-up.
pub open spec fn initial_state() -> MachineState {
    MachineState {
        ram: initial_memory(),
        v: Seq::new(DATA_REGISTERS as nat, |n: int| 0u8),
        i: 0,
        dt: 0,
        st: 0,
        pc: START_ADDRESS,
        sp: 0,
        stack: Seq::new(STACK_DEPTH as nat, |k: int| 0u16),
        keys: Seq::new(NUM_KEYS as nat, |k: int| false),
        screen: blank_screen(),
    }
}

/// `ram` with `rom` copied to the load address.
pub open spec fn loaded(ram: Seq<u8>, rom: Seq<u8>) -> Seq<u8> {
    Seq::new(
        ram.len(),
        |a: int|
            if PROGRAM_LOAD_ADDRESS <= a < PROGRAM_LOAD_ADDRESS + rom.len() {
                rom[a - PROGRAM_LOAD_ADDRESS]
            } else {
                ram[a]
            },
    )
}

/// A timer after one tick: down by one, but never below zero.
pub open spec fn countdown(t: u8) -> u8 {
    if t > 0 {
        (t - 1) as u8
    } else {
        0
    }
}

/// Relies on `rand::random` (through the thread-local generator): any byte
/// may come back. It panics only if the operating system's random source
/// cannot seed the generator.
#[verifier::external_body]
pub(crate) fn random_byte() -> (r: u8) {
    rand::random::<u8>()
}

/// The virtual machine: its state and the speaker its sound timer drives.
pub struct Chip8<S: Speaker> {
    pub memory: Memory,
    pub registers: Registers,
    pub stack: Stack,
    pub keyboard: Keyboard,
    pub screen: Screen,
    pub speaker: S,
}

impl<S: Speaker> Chip8<S> {
    pub open spec fn view(&self) -> MachineState {
        MachineState {
            ram: self.memory@,
            v: self.registers.v@,
            i: self.registers.i,
            dt: self.registers.dt,
            st: self.registers.st,
            pc: self.registers.pc,
            sp: self.registers.sp,
            stack: self.stack@,
            keys: self.keyboard@,
            screen: self.screen@,
        }
    }

    pub open spec fn wf(&self) -> bool {
        self.registers.wf()
    }

    /// A machine on power-up, with the font in memory, driving `speaker`.
    pub fn new(speaker: S) -> (r: Self)
        ensures
            r.wf(),
            r@ == initial_state(),
    {
        Chip8 {
            memory: Memory::new(),
            registers: Registers::new(),
            stack: Stack::new(),
            keyboard: Keyboard::new(),
            screen: Screen::new(),
            speaker,
        }
    }

    /// Copies `rom` to the load address and returns its length; a ROM
    /// larger than the space from there to the end of memory is refused and
    /// nothing is written.
    pub fn load_rom(&mut self, rom: Vec<u8>) -> (r: Result<usize, String>)
        ensures
            final(self).wf() == old(self).wf(),
            rom.len() > MAX_ROM_SIZE ==> r is Err && final(self)@ == old(self)@,
            rom.len() <= MAX_ROM_SIZE ==> r == Ok::<usize, String>(rom.len()) && final(self)@ == (
            MachineState { ram: loaded(old(self)@.ram, rom@), ..old(self)@ }),
    {
        let rom_length = rom.len();
        if rom_length > MAX_ROM_SIZE {
            return Err("ROM too big, aborting".to_string());
        }
        assert(loaded(old(self)@.ram, rom@.take(0)) =~= old(self)@.ram);
        for k in 0..rom_length
            invariant
                rom_length == rom.len() <= MAX_ROM_SIZE,
                old(self)@.ram.len() == MEMORY_SIZE,
                self.registers == old(self).registers,
                self@ == (MachineState { ram: loaded(old(self)@.ram, rom@.take(k as int)), ..old(self)@ }),
        {
            self.memory.set(PROGRAM_LOAD_ADDRESS + k, rom[k]);
            assert(self.memory@ =~= loaded(old(self)@.ram, rom@.take(k + 1)));
        }
        assert(rom@.take(rom_length as int) =~= rom@);
        assert(self@.ram =~= loaded(old(self)@.ram, rom@));
        Ok(rom_length)
    }

    pub fn key_down(&mut self, key_idx: usize)
        requires
            key_idx < NUM_KEYS,
        ensures
            final(self).wf() == old(self).wf(),
            final(self)@ == (MachineState {
                keys: old(self)@.keys.update(key_idx as int, true),
                ..old(self)@
            }),
    {
        self.keyboard.key_down(key_idx);
    }

    pub fn key_up(&mut self, key_idx: usize)
        requires
            key_idx < NUM_KEYS,
        ensures
            final(self).wf() == old(self).wf(),
            final(self)@ == (MachineState {
                keys: old(self)@.keys.update(key_idx as int, false),
                ..old(self)@
            }),
    {
        self.keyboard.key_up(key_idx);
    }

    pub fn is_key_down(&self, key: usize) -> (r: bool)
        requires
            key < NUM_KEYS,
        ensures
            r == self@.keys[key as int],
    {
        self.keyboard.is_key_down(key)
    }

    pub fn is_pixel_set(&self, x: usize, y: usize) -> (r: bool)
        requires
            x < WIDTH,
            y < HEIGHT,
        ensures
            r == self@.screen[y as int][x as int],
    {
        self.screen.is_pixel_set(x, y)
    }

    /// Flips the pixel at `(x, y)`.
    pub fn toggle_pixel(&mut self, x: usize, y: usize)
        requires
            x < WIDTH,
            y < HEIGHT,
        ensures
            final(self).wf() == old(self).wf(),
            final(self)@ == (MachineState {
                screen: old(self)@.screen.update(
                    y as int,
                    old(self)@.screen[y as int].update(x as int, !old(self)@.screen[y as int][x as int]),
                ),
                ..old(self)@
            }),
    {
        self.screen.pixel_set(x, y);
    }

    /// XORs `sprite` onto the screen at `(x, y)` and reports a collision.
    pub fn draw_sprite(&mut self, x: usize, y: usize, sprite: &[u8]) -> (r: bool)
        ensures
            final(self).wf() == old(self).wf(),
            final(self)@ == (MachineState {
                screen: drawn(old(self)@.screen, x as int, y as int, sprite@),
                ..old(self)@
            }),
            r == collides(old(self)@.screen, x as int, y as int, sprite@),
    {
        self.screen.draw_sprite(x, y, sprite)
    }

    pub fn clear_screen(&mut self)
        ensures
            final(self).wf() == old(self).wf(),
            final(self)@ == (MachineState { screen: blank_screen(), ..old(self)@ }),
    {
        self.screen.clear();
    }

    pub fn get_sp(&self) -> (r: u8)
        ensures
            r == self@.sp,
    {
        self.registers.get_sp()
    }

    /// Pushes a return address onto the call stack.
    pub fn stack_push(&mut self, value: u16)
        requires
            old(self)@.sp < STACK_DEPTH,
        ensures
            final(self).wf(),
            final(self)@ == (MachineState {
                stack: old(self)@.stack.update(old(self)@.sp as int, value),
                sp: (old(self)@.sp + 1) as u8,
                ..old(self)@
            }),
    {
        self.stack.push(&mut self.registers, value);
    }

    /// Pops the most recent return address off the call stack.
    pub fn stack_pop(&mut self) -> (r: u16)
        requires
            old(self).wf(),
            old(self)@.sp > 0,
        ensures
            final(self).wf(),
            r == old(self)@.stack[old(self)@.sp - 1],
            final(self)@ == (MachineState { sp: (old(self)@.sp - 1) as u8, ..old(self)@ }),
    {
        self.stack.pop(&mut self.registers)
    }

    /// Opcodes 00E0 and 00EE.
    fn exec_system(&mut self, ins: &Instruction) -> (r: Result<(), Fault>)
        requires
            old(self).wf(),
        ensures
            final(self).wf(),
            follows(old(self)@, final(self)@, r, execute_system(old(self)@, *ins)),
    {
        if ins.nibbles.0 == 0 && ins.nibbles.1 == 0 && ins.nibbles.2 == 0xE && ins.nibbles.3 == 0 {
            self.clear_screen();
            Ok(())
        } else if ins.nibbles.0 == 0 && ins.nibbles.1 == 0 && ins.nibbles.2 == 0xE
            && ins.nibbles.3 == 0xE {
            if self.registers.get_sp() == 0 {
                return Err(Fault::StackUnderflow);
            }
            let addr = self.stack_pop();
            self.registers.set_pc(addr);
            Ok(())
        } else {
            Ok(())
        }
    }

    /// Opcode 2nnn.
    fn exec_call(&mut self, addr: u16) -> (r: Result<(), Fault>)
        requires
            old(self).wf(),
        ensures
            final(self).wf(),
            follows(old(self)@, final(self)@, r, execute_call(old(self)@, addr)),
    {
        if self.registers.get_sp() as usize >= STACK_DEPTH {
            return Err(Fault::StackOverflow);
        }
        let pc = self.registers.get_pc();
        self.stack_push(pc);
        self.registers.set_pc(addr);
        Ok(())
    }

    /// Opcodes 8xyN.
    fn exec_alu(&mut self, x: usize, y: usize, op: u8)
        requires
            old(self).wf(),
            x < DATA_REGISTERS,
            y < DATA_REGISTERS,
        ensures
            final(self).wf(),
            final(self)@ == execute_alu(old(self)@, x as int, y as int, op),
    {
        let vx = self.registers.get_v(x);
        let vy = self.registers.get_v(y);
        if op == 0 {
            self.registers.set_v(x, vy);
        } else if op == 1 {
            self.registers.set_v(x, vx | vy);
        } else if op == 2 {
            self.registers.set_v(x, vx & vy);
        } else if op == 3 {
            self.registers.set_v(x, vx ^ vy);
        } else if op == 4 {
            let sum = vx as u16 + vy as u16;
            self.registers.set_carry_if(sum > 255);
            self.registers.set_v(x, (sum % 256) as u8);
        } else if op == 5 {
            self.registers.set_carry_if(vx > vy);
            self.registers.set_v(x, ((vx as u16 + 256 - vy as u16) % 256) as u8);
        } else if op == 6 {
            self.registers.set_carry_if(vx & 1 == 1);
            assert((vx & 1 == 1) == (vx % 2 == 1)) by (bit_vector);
            assert(vx >> 1 == vx / 2) by (bit_vector);
            self.registers.set_v(x, vx >> 1);
        } else if op == 7 {
            self.registers.set_carry_if(vy > vx);
            self.registers.set_v(x, ((vy as u16 + 256 - vx as u16) % 256) as u8);
        } else if op == 0xE {
            let msb = (vx & 0x80) >> 7;
            assert(msb == (if vx >= 128 { 1u8 } else { 0u8 })) by (bit_vector)
                requires
                    msb == (vx & 0x80) >> 7,
            ;
            self.registers.set_v(0xF, msb);
            assert(vx << 1 == (vx * 2) % 256) by (bit_vector);
            self.registers.set_v(x, vx << 1);
        }
    }

    /// Opcode Dxyn.
    fn exec_draw(&mut self, x: usize, y: usize, n: u8) -> (r: Result<(), Fault>)
        requires
            old(self).wf(),
            x < DATA_REGISTERS,
            y < DATA_REGISTERS,
        ensures
            final(self).wf(),
            follows(old(self)@, final(self)@, r, execute_draw(old(self)@, x as int, y as int, n)),
    {
        let start = self.registers.get_i() as usize;
        if start + n as usize > MEMORY_SIZE {
            return Err(Fault::AddressOutOfRange);
        }
        let px = self.registers.get_v(x) as usize;
        let py = self.registers.get_v(y) as usize;
        let collision = self.screen.draw_sprite(px, py, self.memory.read(start, n));
        self.registers.set_carry_if(collision);
        Ok(())
    }

    /// Opcodes Ex9E and ExA1.
    fn exec_key_skip(&mut self, x: usize, n2: u8, n3: u8) -> (r: Result<(), Fault>)
        requires
            old(self).wf(),
            old(self)@.pc + INSTRUCTION_LENGTH <= u16::MAX,
            x < DATA_REGISTERS,
        ensures
            final(self).wf(),
            follows(old(self)@, final(self)@, r, execute_key_skip(old(self)@, x as int, (n2, n3))),
    {
        let skip_if_down = n2 == 9 && n3 == 0xE;
        let skip_if_up = n2 == 0xA && n3 == 1;
        if skip_if_down || skip_if_up {
            let vx = self.registers.get_v(x);
            if vx as usize >= NUM_KEYS {
                return Err(Fault::KeyOutOfRange);
            }
            if self.keyboard.is_key_down(vx as usize) == skip_if_down {
                self.registers.advance_pc();
            }
        }
        Ok(())
    }

    /// Opcode Fx33: the decimal digits of `vx` at `I`, `I + 1` and `I + 2`.
    fn exec_bcd(&mut self, vx: u8) -> (r: Result<(), Fault>)
        requires
            old(self).wf(),
        ensures
            final(self).wf(),
            follows(
                old(self)@,
                final(self)@,
                r,
                if old(self)@.i + 3 > MEMORY_SIZE {
                    Err(Fault::AddressOutOfRange)
                } else {
                    Ok(
                        MachineState {
                            ram: old(self)@.ram.update(old(self)@.i as int, vx / 100).update(
                                old(self)@.i + 1,
                                vx % 100 / 10,
                            ).update(old(self)@.i + 2, vx % 10),
                            ..old(self)@
                        },
                    )
                },
            ),
    {
        let i = self.registers.get_i() as usize;
        if i + 3 > MEMORY_SIZE {
            return Err(Fault::AddressOutOfRange);
        }
        self.memory.set(i, vx / 100);
        self.memory.set(i + 1, vx % 100 / 10);
        self.memory.set(i + 2, vx % 10);
        Ok(())
    }

    /// Opcode Fx55: V0 to Vx stored from `I` on.
    fn exec_store_registers(&mut self, x: usize) -> (r: Result<(), Fault>)
        requires
            old(self).wf(),
            x < DATA_REGISTERS,
        ensures
            final(self).wf(),
            follows(old(self)@, final(self)@, r, execute_misc(old(self)@, x as int, (5u8, 5u8))),
    {
        let i = self.registers.get_i() as usize;
        if i + x + 1 > MEMORY_SIZE {
            return Err(Fault::AddressOutOfRange);
        }
        let ghost s0 = self@;
        assert(s0.ram =~= Seq::new(
            MEMORY_SIZE as nat,
            |a: int|
                if i <= a < i + 0 {
                    s0.v[a - i]
                } else {
                    s0.ram[a]
                },
        ));
        for n in 0..x + 1
            invariant
                i == s0.i,
                i + x + 1 <= MEMORY_SIZE,
                x < DATA_REGISTERS,
                s0 == old(self)@,
                self.wf(),
                self@ == (MachineState {
                    ram: Seq::new(
                        MEMORY_SIZE as nat,
                        |a: int|
                            if i <= a < i + n {
                                s0.v[a - i]
                            } else {
                                s0.ram[a]
                            },
                    ),
                    ..s0
                }),
        {
            let value = self.registers.get_v(n);
            self.memory.set(i + n, value);
            assert(self@.ram =~= Seq::new(
                MEMORY_SIZE as nat,
                |a: int|
                    if i <= a < i + n + 1 {
                        s0.v[a - i]
                    } else {
                        s0.ram[a]
                    },
            ));
        }
        assert(self@.ram =~= Seq::new(
            MEMORY_SIZE as nat,
            |a: int|
                if s0.i <= a <= s0.i + x {
                    s0.v[a - s0.i]
                } else {
                    s0.ram[a]
                },
        ));
        Ok(())
    }

    /// Opcode Fx65: V0 to Vx loaded from `I` on.
    fn exec_load_registers(&mut self, x: usize) -> (r: Result<(), Fault>)
        requires
            old(self).wf(),
            x < DATA_REGISTERS,
        ensures
            final(self).wf(),
            follows(old(self)@, final(self)@, r, execute_misc(old(self)@, x as int, (6u8, 5u8))),
    {
        let i = self.registers.get_i() as usize;
        if i + x + 1 > MEMORY_SIZE {
            return Err(Fault::AddressOutOfRange);
        }
        let ghost s0 = self@;
        assert(s0.v =~= Seq::new(
            DATA_REGISTERS as nat,
            |k: int|
                if k < 0 {
                    s0.ram[i + k]
                } else {
                    s0.v[k]
                },
        ));
        for n in 0..x + 1
            invariant
                i == s0.i,
                i + x + 1 <= MEMORY_SIZE,
                x < DATA_REGISTERS,
                s0 == old(self)@,
                s0.v.len() == DATA_REGISTERS,
                self.wf(),
                self@ == (MachineState {
                    v: Seq::new(
                        DATA_REGISTERS as nat,
                        |k: int|
                            if k < n {
                                s0.ram[i + k]
                            } else {
                                s0.v[k]
                            },
                    ),
                    ..s0
                }),
        {
            let value = self.memory.get(i + n);
            self.registers.set_v(n, value);
            assert(self@.v =~= Seq::new(
                DATA_REGISTERS as nat,
                |k: int|
                    if k < n + 1 {
                        s0.ram[i + k]
                    } else {
                        s0.v[k]
                    },
            ));
        }
        assert(self@.v =~= Seq::new(
            s0.v.len(),
            |k: int|
                if k <= x {
                    s0.ram[s0.i + k]
                } else {
                    s0.v[k]
                },
        ));
        Ok(())
    }

    /// Opcodes FxNN.
    fn exec_misc(&mut self, x: usize, n2: u8, n3: u8) -> (r: Result<(), Fault>)
        requires
            old(self).wf(),
            INSTRUCTION_LENGTH <= old(self)@.pc,
            x < DATA_REGISTERS,
        ensures
            final(self).wf(),
            follows(old(self)@, final(self)@, r, execute_misc(old(self)@, x as int, (n2, n3))),
    {
        let vx = self.registers.get_v(x);
        if n2 == 0 && n3 == 7 {
            let dt = self.registers.get_dt();
            self.registers.set_v(x, dt);
            Ok(())
        } else if n2 == 0 && n3 == 0xA {
            match self.keyboard.first_key_down() {
                Some(k) => self.registers.set_v(x, k),
                None => {
                    let pc = self.registers.get_pc();
                    self.registers.set_pc(pc - INSTRUCTION_LENGTH);
                },
            }
            Ok(())
        } else if n2 == 1 && n3 == 5 {
            self.registers.set_dt(vx);
            Ok(())
        } else if n2 == 1 && n3 == 8 {
            self.registers.set_st(vx);
            Ok(())
        } else if n2 == 1 && n3 == 0xE {
            let i = self.registers.get_i();
            let sum = ((i as u32 + vx as u32) % 0x10000) as u16;
            self.registers.set_i(sum);
            self.registers.set_carry_if(sum > 0x8000);
            Ok(())
        } else if n2 == 2 && n3 == 9 {
            self.registers.set_i(vx as u16 * GLYPH_SIZE as u16);
            Ok(())
        } else if n2 == 3 && n3 == 3 {
            self.exec_bcd(vx)
        } else if n2 == 5 && n3 == 5 {
            self.exec_store_registers(x)
        } else if n2 == 6 && n3 == 5 {
            self.exec_load_registers(x)
        } else {
            Ok(())
        }
    }

    /// Executes `ins`, whose opcode the program counter has already moved past.
    fn exec_instruction(&mut self, ins: &Instruction, rnd: u8) -> (r: Result<(), Fault>)
        requires
            old(self).wf(),
            ins.wf(),
            INSTRUCTION_LENGTH <= old(self)@.pc <= MEMORY_SIZE,
        ensures
            final(self).wf(),
            follows(old(self)@, final(self)@, r, execute(old(self)@, *ins, rnd)),
    {
        let x = ins.x;
        let y = ins.y;
        let family = ins.nibbles.0;
        if family == 0 {
            self.exec_system(ins)
        } else if family == 1 {
            self.registers.set_pc(ins.addr);
            Ok(())
        } else if family == 2 {
            self.exec_call(ins.addr)
        } else if family == 3 {
            if self.registers.get_v(x) == ins.byte {
                self.registers.advance_pc();
            }
            Ok(())
        } else if family == 4 {
            if self.registers.get_v(x) != ins.byte {
                self.registers.advance_pc();
            }
            Ok(())
        } else if family == 5 {
            if ins.nibble == 0 && self.registers.get_v(x) == self.registers.get_v(y) {
                self.registers.advance_pc();
            }
            Ok(())
        } else if family == 6 {
            self.registers.set_v(x, ins.byte);
            Ok(())
        } else if family == 7 {
            let sum = self.registers.get_v(x) as u16 + ins.byte as u16;
            self.registers.set_v(x, (sum % 256) as u8);
            Ok(())
        } else if family == 8 {
            self.exec_alu(x, y, ins.nibble);
            Ok(())
        } else if family == 9 {
            if ins.nibble == 0 && self.registers.get_v(x) != self.registers.get_v(y) {
                self.registers.advance_pc();
            }
            Ok(())
        } else if family == 0xA {
            self.registers.set_i(ins.addr);
            Ok(())
        } else if family == 0xB {
            let v0 = self.registers.get_v(0);
            self.registers.set_pc(v0 as u16 + ins.addr);
            Ok(())
        } else if family == 0xC {
            self.registers.set_v(x, rnd & ins.byte);
            Ok(())
        } else if family == 0xD {
            self.exec_draw(x, y, ins.nibble)
        } else if family == 0xE {
            self.exec_key_skip(x, ins.nibbles.2, ins.nibbles.3)
        } else {
            self.exec_misc(x, ins.nibbles.2, ins.nibbles.3)
        }
    }

    /// One fetch-decode-execute cycle, with `rnd` as the random byte that
    /// Cxkk masks. On a fault the machine is left as it was.
    pub fn step(&mut self, rnd: u8) -> (r: Result<(), Fault>)
        requires
            old(self).wf(),
        ensures
            final(self).wf(),
            follows(old(self)@, final(self)@, r, step(old(self)@, rnd)),
    {
        let pc = self.registers.get_pc();
        if pc as usize + INSTRUCTION_LENGTH as usize > MEMORY_SIZE {
            return Err(Fault::AddressOutOfRange);
        }
        let opcode = self.memory.read_opcode(pc as usize);
        let ins = Instruction::parse(opcode);
        self.registers.advance_pc();
        let r = self.exec_instruction(&ins, rnd);
        if r.is_err() {
            self.registers.set_pc(pc);
        }
        r
    }

    /// One fetch-decode-execute cycle, drawing a fresh random byte for
    /// Cxkk. Whatever byte is drawn, the outcome is that of `step` with it.
    pub fn exec(&mut self) -> (r: Result<(), Fault>)
        requires
            old(self).wf(),
        ensures
            final(self).wf(),
            exists|rnd: u8| follows(old(self)@, final(self)@, r, #[trigger] step(old(self)@, rnd)),
    {
        let rnd = random_byte();
        self.step(rnd)
    }

    /// One tick of the delay timer.
    pub fn handle_delay_timer(&mut self)
        ensures
            final(self).wf() == old(self).wf(),
            final(self)@ == (MachineState { dt: countdown(old(self)@.dt), ..old(self)@ }),
    {
        if self.registers.get_dt() > 0 {
            self.registers.dec_dt();
        }
    }

    /// One tick of the sound timer: the speaker sounds while it is nonzero.
    pub fn handle_sound_timer(&mut self)
        ensures
            final(self).wf() == old(self).wf(),
            final(self)@ == (MachineState { st: countdown(old(self)@.st), ..old(self)@ }),
    {
        let status = self.registers.get_st() > 0;
        self.speaker.beep(status);
        if status {
            self.registers.dec_st();
        }
    }

    /// One 60 Hz tick of both timers.
    pub fn update_timers(&mut self)
        ensures
            final(self).wf() == old(self).wf(),
            final(self)@ == (MachineState {
                dt: countdown(old(self)@.dt),
                st: countdown(old(self)@.st),
                ..old(self)@
            }),
    {
        self.handle_delay_timer();
        self.handle_sound_timer();
    }
}

} // verus!
