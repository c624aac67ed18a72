use chip8::memory::MEMORY_SIZE;
use chip8::registers::DATA_REGISTERS;
use chip8::{Keyboard, Memory, Registers, Screen, Stack};

#[test]
fn it_can_set_a_pixel() {
    let mut screen = Screen::new();
    screen.pixel_set(5, 5);
    assert!(screen.is_pixel_set(5, 5));
}

#[test]
fn it_returns_true_when_overwriting() {
    let mut screen = Screen::new();
    assert!(!screen.draw_sprite(0, 0, &[0xff]));
    assert!(screen.draw_sprite(0, 0, &[0xff]));
}

#[test]
fn it_has_the_correct_memory_size() {
    assert_eq!(Memory::new().memory.len(), MEMORY_SIZE);
}

#[test]
fn it_can_write_the_memory() {
    let mut memory = Memory::new();
    memory.set(200, 42);
    assert_eq!(memory.memory[200..=202], [42, 0, 0]);
}

#[test]
fn it_can_read_the_memory() {
    let mut memory = Memory::new();
    memory.set(2, 42);
    assert_eq!(memory.get(2), 42);
}

#[test]
fn memory_it_contains_the_default_character_set() {
    let memory = Memory::new();
    assert_eq!(memory.memory[0x50..0x55], [0xf0, 0x90, 0x90, 0x90, 0xf0])
}

#[test]
fn it_returns_a_slice_of_memory() {
    let memory = Memory::new();
    let slice = memory.read(0x50, 5);
    assert_eq!(slice.len(), 5);
    assert_eq!(slice, [0xf0, 0x90, 0x90, 0x90, 0xf0]);
}

#[test]
fn it_has_the_correct_number_of_data_registers() {
    assert_eq!(Registers::new().v.len(), DATA_REGISTERS);
}

#[test]
fn it_can_write_data_registers() {
    let mut registers = Registers::new();
    registers.set_v(0xA, 42);
    assert_eq!(registers.v[0xA], 42);
}

#[test]
fn it_can_read_data_registers() {
    let mut registers = Registers::new();
    registers.set_v(0xA, 42);
    assert_eq!(registers.get_v(0xA), 42);
}

#[test]
fn stack_it_can_push_to_and_pop_from_the_stack() {
    let mut registers = Registers::new();
    assert_eq!(registers.get_sp(), 0);

    let mut stack = Stack::new();
    stack.push(&mut registers, 0xff);
    assert_eq!(registers.get_sp(), 1);
    assert_eq!(stack.stack[0], 0xff);

    stack.push(&mut registers, 0xaa);
    assert_eq!(registers.get_sp(), 2);
    assert_eq!(stack.stack[1], 0xaa);
    assert_eq!(stack.pop(&mut registers), 170);
    assert_eq!(registers.get_sp(), 1);
    assert_eq!(stack.pop(&mut registers), 255);
    assert_eq!(registers.get_sp(), 0);
}

#[test]
fn keyboard_it_can_press_and_release_keys() {
    let mut keyboard = Keyboard::new();
    assert!(!keyboard.is_key_down(1));
    keyboard.key_down(1);
    assert!(keyboard.is_key_down(1));
    keyboard.key_up(1);
    assert!(!keyboard.is_key_down(1));
}
