//! A CHIP-8 virtual machine: memory, registers, call stack, keypad,
//! framebuffer and the fetch-decode-execute engine that drives them.

pub mod display;
pub mod emulator;
pub mod host;
pub mod instruction;
pub mod keyboard;
pub mod machine;
pub mod memory;
pub mod registers;
pub mod stack;

pub use display::{Screen, HEIGHT as DISPLAY_HEIGHT, WIDTH as DISPLAY_WIDTH};
pub use emulator::{Chip8, Speaker};
pub use host::{Chip8Emulator, WebSpeaker, TICKS_PER_FRAME};
pub use instruction::Instruction;
pub use keyboard::{Keyboard, NUM_KEYS};
pub use machine::Fault;
pub use memory::Memory;
pub use registers::Registers;
pub use stack::Stack;
