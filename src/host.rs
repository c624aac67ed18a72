use vstd::prelude::*;
use crate::display::{HEIGHT, WIDTH};
use crate::emulator::{
    countdown, initial_state, loaded, random_byte, Chip8, Speaker, MAX_ROM_SIZE,
};
use crate::keyboard::NUM_KEYS;
use crate::machine::{step, Fault, MachineState};

verus! {

/// Instructions executed per displayed frame.
pub const TICKS_PER_FRAME: usize = 10;

/// Runs `step` once for each byte of `rnds`, stopping at the first fault.
/// Gives the state reached and the fault, if one stopped the run.
pub open spec fn run(s: MachineState, rnds: Seq<u8>) -> (MachineState, Option<Fault>)
    decreases rnds.len(),
{
    if rnds.len() == 0 {
        (s, None)
    } else {
        let (t, fault) = run(s, rnds.drop_last());
        if fault is Some {
            (t, fault)
        } else {
            match step(t, rnds.last()) {
                Ok(u) => (u, None),
                Err(f) => (t, Some(f)),
            }
        }
    }
}

/// `s` after one tick of both timers.
pub open spec fn timers_ticked(s: MachineState) -> MachineState {
    MachineState { dt: countdown(s.dt), st: countdown(s.st), ..s }
}

/// The pixel value a host sees for a framebuffer pixel: 1 when set.
pub open spec fn pixel_byte(on: bool) -> u8 {
    if on {
        1
    } else {
        0
    }
}

/// A speaker for hosts without audio output: it ignores the tone.
pub struct WebSpeaker {}

impl WebSpeaker {
    pub fn new() -> (r: Self) {
        WebSpeaker {  }
    }
}

impl Speaker for WebSpeaker {
    fn beep(&mut self, _status: bool) {
    }
}

/// The machine packaged for a host that drives it one frame at a time and
/// reads the framebuffer as bytes.
pub struct Chip8Emulator {
    pub chip8: Chip8<WebSpeaker>,
}

impl Chip8Emulator {
    pub open spec fn view(&self) -> MachineState {
        self.chip8@
    }

    pub open spec fn wf(&self) -> bool {
        self.chip8.wf()
    }

    /// A machine on power-up.
    pub fn new() -> (r: Self)
        ensures
            r.wf(),
            r@ == initial_state(),
    {
        Chip8Emulator { chip8: Chip8::new(WebSpeaker::new()) }
    }

    /// Loads `rom` at the load address; see `Chip8::load_rom`.
    pub fn load_rom(&mut self, rom: &[u8]) -> (r: Result<usize, String>)
        ensures
            final(self).wf() == old(self).wf(),
            rom@.len() > MAX_ROM_SIZE ==> r is Err && final(self)@ == old(self)@,
            rom@.len() <= MAX_ROM_SIZE ==> r == Ok::<usize, String>(rom.len()) && final(self)@ == (
            MachineState { ram: loaded(old(self)@.ram, rom@), ..old(self)@ }),
    {
        self.chip8.load_rom(vstd::slice::slice_to_vec(rom))
    }

    /// One frame: up to `TICKS_PER_FRAME` instructions, each with a fresh
    /// random byte, then one tick of the timers. A fault stops the frame
    /// where it occurred, before the timers tick.
    pub fn tick(&mut self) -> (r: Result<(), Fault>)
        requires
            old(self).wf(),
        ensures
            final(self).wf(),
            exists|rnds: Seq<u8>|
                rnds.len() == TICKS_PER_FRAME && match #[trigger] run(old(self)@, rnds) {
                    (t, None) => r is Ok && final(self)@ == timers_ticked(t),
                    (t, Some(f)) => r == Err::<(), Fault>(f) && final(self)@ == t,
                },
    {
        let ghost mut rnds: Seq<u8> = Seq::empty();
        for k in 0..TICKS_PER_FRAME
            invariant
                self.wf(),
                rnds.len() == k,
                run(old(self)@, rnds) == (self@, None::<Fault>),
        {
            let rnd = random_byte();
            let r = self.chip8.step(rnd);
            proof {
                assert(rnds.push(rnd).drop_last() =~= rnds);
                rnds = rnds.push(rnd);
            }
            if let Err(f) = r {
                proof {
                    let extra = Seq::new((TICKS_PER_FRAME - rnds.len()) as nat, |n: int| 0u8);
                    lemma_run_stops(old(self)@, rnds, extra);
                    assert((rnds + extra).len() == TICKS_PER_FRAME);
                    assert(run(old(self)@, rnds + extra) == (self@, Some(f)));
                }
                return Err(f);
            }
        }
        self.chip8.update_timers();
        Ok(())
    }

    /// Presses `key`; a key outside the keypad is ignored.
    pub fn key_down(&mut self, key: usize)
        ensures
            final(self).wf() == old(self).wf(),
            key < NUM_KEYS ==> final(self)@ == (MachineState {
                keys: old(self)@.keys.update(key as int, true),
                ..old(self)@
            }),
            key >= NUM_KEYS ==> final(self)@ == old(self)@,
    {
        if key < NUM_KEYS {
            self.chip8.key_down(key);
        }
    }

    /// Releases `key`; a key outside the keypad is ignored.
    pub fn key_up(&mut self, key: usize)
        ensures
            final(self).wf() == old(self).wf(),
            key < NUM_KEYS ==> final(self)@ == (MachineState {
                keys: old(self)@.keys.update(key as int, false),
                ..old(self)@
            }),
            key >= NUM_KEYS ==> final(self)@ == old(self)@,
    {
        if key < NUM_KEYS {
            self.chip8.key_up(key);
        }
    }

    /// The framebuffer row by row, one byte per pixel: 1 for set, 0 for unset.
    pub fn get_display_buffer(&self) -> (r: Vec<u8>)
        ensures
            r@.len() == WIDTH * HEIGHT,
            forall|y: int, x: int|
                0 <= y < HEIGHT && 0 <= x < WIDTH ==> r@[y * WIDTH + x] == pixel_byte(
                    self@.screen[y][x],
                ),
    {
        let mut buffer: Vec<u8> = Vec::new();
        for y in 0..HEIGHT
            invariant
                buffer@.len() == y * WIDTH,
                forall|k: int|
                    0 <= k < buffer@.len() ==> #[trigger] buffer@[k] == pixel_byte(
                        self@.screen[k / WIDTH as int][k % WIDTH as int],
                    ),
        {
            for x in 0..WIDTH
                invariant
                    y < HEIGHT,
                    buffer@.len() == y * WIDTH + x,
                    forall|k: int|
                        0 <= k < buffer@.len() ==> #[trigger] buffer@[k] == pixel_byte(
                            self@.screen[k / WIDTH as int][k % WIDTH as int],
                        ),
            {
                assert((y * WIDTH + x) / (WIDTH as int) == y && (y * WIDTH + x) % (WIDTH as int) == x)
                    by (nonlinear_arith)
                    requires
                        x < WIDTH,
                ;
                let on = self.chip8.is_pixel_set(x, y);
                buffer.push(if on { 1 } else { 0 });
            }
        }
        assert forall|y: int, x: int| 0 <= y < HEIGHT && 0 <= x < WIDTH implies buffer@[y * WIDTH
            + x] == pixel_byte(self@.screen[y][x]) by {
            assert((y * WIDTH + x) / (WIDTH as int) == y && (y * WIDTH + x) % (WIDTH as int) == x)
                by (nonlinear_arith)
                requires
                    0 <= x < WIDTH,
                    0 <= y,
            ;
            assert(0 <= y * WIDTH + x < WIDTH * HEIGHT) by (nonlinear_arith)
                requires
                    0 <= x < WIDTH,
                    0 <= y < HEIGHT,
            ;
        }
        buffer
    }

    /// Puts the machine back in its power-up state.
    pub fn reset(&mut self)
        ensures
            final(self).wf(),
            final(self)@ == initial_state(),
    {
        self.chip8 = Chip8::new(WebSpeaker::new());
    }
}

/// Once a run has faulted, further bytes change nothing.
proof fn lemma_run_stops(s: MachineState, rnds: Seq<u8>, extra: Seq<u8>)
    requires
        run(s, rnds).1 is Some,
    ensures
        run(s, rnds + extra) == run(s, rnds),
    decreases extra.len(),
{
    if extra.len() > 0 {
        lemma_run_stops(s, rnds, extra.drop_last());
        assert((rnds + extra).drop_last() =~= rnds + extra.drop_last());
    }
}

} // verus!
