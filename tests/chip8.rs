use chip8::memory::{FONT_SIZE, FONT_START, PROGRAM_LOAD_ADDRESS};
use chip8::{Chip8, Speaker};

struct TestSpeaker {}

impl TestSpeaker {
    fn new() -> Self {
        TestSpeaker {}
    }
}

impl Speaker for TestSpeaker {
    fn beep(&mut self, _status: bool) {}
}

fn new_chip8() -> Chip8<TestSpeaker> {
    Chip8::new(TestSpeaker::new())
}

const DEFAULT_CHARACTER_SET: [u8; 80] = [
    0xf0, 0x90, 0x90, 0x90, 0xf0, // 0
    0x20, 0x60, 0x20, 0x20, 0x70, // 1
    0xf0, 0x10, 0xf0, 0x80, 0xf0, // 2
    0xf0, 0x10, 0xf0, 0x10, 0xf0, // 3
    0x90, 0x90, 0xf0, 0x10, 0x10, // 4
    0xf0, 0x80, 0xf0, 0x10, 0xf0, // 5
    0xf0, 0x80, 0xf0, 0x90, 0xf0, // 6
    0xf0, 0x10, 0x20, 0x40, 0x40, // 7
    0xf0, 0x90, 0xf0, 0x90, 0xf0, // 8
    0xf0, 0x90, 0xf0, 0x10, 0xf0, // 9
    0xf0, 0x90, 0xf0, 0x90, 0x90, // A
    0xe0, 0x90, 0xe0, 0x90, 0xe0, // B
    0xf0, 0x80, 0x80, 0x80, 0xf0, // C
    0xe0, 0x90, 0x90, 0x90, 0xe0, // D
    0xf0, 0x80, 0xf0, 0x80, 0xf0, // E
    0xf0, 0x80, 0xf0, 0x80, 0x80, // F
];

#[test]
fn chip8_toggle_pixel_can_toggle_a_pixel() {
    let mut chip8 = new_chip8();
    assert!(!chip8.is_pixel_set(5, 5));
    chip8.toggle_pixel(5, 5);
    assert!(chip8.is_pixel_set(5, 5));
    chip8.toggle_pixel(5, 5);
    assert!(!chip8.is_pixel_set(5, 5));
}

#[test]
fn chip8_draw_sprite_returns_true_when_overwriting() {
    let mut chip8 = new_chip8();
    assert!(!chip8.draw_sprite(0, 0, &[0xff]));
    assert!(chip8.draw_sprite(0, 0, &[0xff]));
}

#[test]
fn chip8_it_can_press_and_release_keys() {
    let mut chip8 = new_chip8();
    assert!(!chip8.is_key_down(1));
    chip8.key_down(1);
    assert!(chip8.is_key_down(1));
    chip8.key_up(1);
    assert!(!chip8.is_key_down(1));
}

#[test]
fn chip8_it_can_push_to_and_pop_from_the_stack() {
    let mut chip8 = new_chip8();
    assert_eq!(chip8.get_sp(), 0);
    chip8.stack_push(0xff);
    assert_eq!(chip8.get_sp(), 1);
    assert_eq!(chip8.stack.stack[0], 0xff);

    chip8.stack_push(0xaa);
    assert_eq!(chip8.get_sp(), 2);
    assert_eq!(chip8.stack.stack[1], 0xaa);
    assert_eq!(chip8.stack_pop(), 170);
    assert_eq!(chip8.get_sp(), 1);
    assert_eq!(chip8.stack_pop(), 255);
    assert_eq!(chip8.get_sp(), 0);
}

#[test]
fn chip8_it_contains_the_default_character_set() {
    let chip8 = new_chip8();
    assert_eq!(
        chip8.memory.memory[FONT_START..FONT_START + FONT_SIZE],
        DEFAULT_CHARACTER_SET
    )
}

#[test]
fn test_rom_loading() {
    let mut chip8 = new_chip8();

    // Create a small ROM
    let rom: Vec<u8> = vec![1, 2, 3, 4];

    let result = chip8.load_rom(rom);
    assert!(result.is_ok());

    // Check that the ROM was loaded correctly
    assert_eq!(chip8.memory.memory[PROGRAM_LOAD_ADDRESS], 1);
    assert_eq!(chip8.memory.memory[PROGRAM_LOAD_ADDRESS + 1], 2);
    assert_eq!(chip8.memory.memory[PROGRAM_LOAD_ADDRESS + 2], 3);
    assert_eq!(chip8.memory.memory[PROGRAM_LOAD_ADDRESS + 3], 4);
}

#[test]
fn emulator_toggle_pixel_can_toggle_a_pixel() {
    let mut chip8 = new_chip8();
    assert_eq!(chip8.is_pixel_set(5, 5), false);
    chip8.toggle_pixel(5, 5);
    assert_eq!(chip8.is_pixel_set(5, 5), true);
    chip8.toggle_pixel(5, 5);
    assert_eq!(chip8.is_pixel_set(5, 5), false);
}

#[test]
fn emulator_draw_sprite_returns_true_when_overwriting() {
    let mut chip8 = new_chip8();
    assert_eq!(chip8.draw_sprite(0, 0, &[0xff]), false);
    assert_eq!(chip8.draw_sprite(0, 0, &[0xff]), true);
}

#[test]
fn emulator_it_can_press_and_release_keys() {
    let mut chip8 = new_chip8();
    assert_eq!(chip8.is_key_down(1), false);
    chip8.key_down(1);
    assert_eq!(chip8.is_key_down(1), true);
    chip8.key_up(1);
    assert_eq!(chip8.is_key_down(1), false);
}

#[test]
fn emulator_it_can_push_to_and_pop_from_the_stack() {
    let mut chip8 = new_chip8();
    assert_eq!(chip8.get_sp(), 0);
    chip8.stack_push(0xff);
    assert_eq!(chip8.get_sp(), 1);
    assert_eq!(chip8.stack.stack[0], 0xff);

    chip8.stack_push(0xaa);
    assert_eq!(chip8.get_sp(), 2);
    assert_eq!(chip8.stack.stack[1], 0xaa);
    assert_eq!(chip8.stack_pop(), 170);
    assert_eq!(chip8.get_sp(), 1);
    assert_eq!(chip8.stack_pop(), 255);
    assert_eq!(chip8.get_sp(), 0);
}
