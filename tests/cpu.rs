use std::cell::RefCell;
use std::rc::Rc;

use chip8::bits::BitArray;
use chip8::cpu::{Chip8, Chip8Error, Display, Input, Outcome, Readings, Reply, Request};
use chip8::instruction::Instruction;
use chip8::keypad::DummyInput;

struct FakeDisplay {}

impl Display for FakeDisplay {
    fn draw(&self, _display: [[bool; 32]; 64]) {}
}

/// Keeps every framebuffer it is handed.
struct RecordingDisplay {
    frames: Rc<RefCell<Vec<[[bool; 32]; 64]>>>,
}

impl Display for RecordingDisplay {
    fn draw(&self, display: [[bool; 32]; 64]) {
        self.frames.borrow_mut().push(display);
    }
}

/// Reports one fixed key as pressed and as the key a wait returns.
struct OneKeyInput {
    key: u8,
}

impl Input for OneKeyInput {
    fn wait_for_key(&self) -> u8 {
        self.key
    }

    fn is_key_pressed(&self, key: u8) -> bool {
        key == self.key
    }
}

/// One fetch-request-execute round, with the delay timer reading `delay`.
fn step<T: Input, D: Display>(cpu: &mut Chip8<T, D>, delay: u8) -> Result<Outcome, Chip8Error> {
    let instruction = cpu.fetch_instruction()?;
    let reply = match cpu.request_for(&instruction) {
        Request::Nothing => Reply::Nothing,
        Request::KeyState(key) => Reply::KeyState(cpu.input().is_key_pressed(key)),
        Request::KeyWait => Reply::Key(cpu.input().wait_for_key()),
        Request::DelayTimer => Reply::DelayTimer(delay),
    };
    let outcome = cpu.execute_with_reply(&instruction, reply)?;
    if outcome == Outcome::Redraw {
        cpu.display_output().draw(cpu.display());
    }
    Ok(outcome)
}

fn readings() -> Readings {
    Readings { delay_timer: 0, random: 0, key_pressed: false, key: 0 }
}

fn machine() -> Chip8<DummyInput, FakeDisplay> {
    Chip8::new(DummyInput {}, FakeDisplay {})
}

fn run(cpu: &mut Chip8<DummyInput, FakeDisplay>, b1: u8, b2: u8) -> Result<Outcome, Chip8Error> {
    cpu.execute_instruction(&Instruction::new(b1, b2), &readings())
}

#[test]
fn draw_sprite_row() {
    let input = DummyInput {};
    let display = FakeDisplay {};
    let cpu = Chip8::new(input, display);
    let (row, collision) = cpu.draw_sprite_row(0x1, 0x0);
    assert_eq!(row, 0x1);
    assert_eq!(collision, false);

    let (row, collision) = cpu.draw_sprite_row(0x2, 0x6);
    assert_eq!(row, 0x4);
    assert_eq!(collision, true);
}

#[test]
fn to_bit_array() {
    let v: u8 = 0x85; // 10000101
    let a = v.to_bit_array();

    assert_eq!(a, [true, false, false, false, false, true, false, true]);
}

#[test]
fn from_bit_array() {
    let v: u8 = u8::from_bit_array([true, false, false, false, false, true, false, true]); // 0x85
    assert_eq!(v, 0x85);
}

#[test]
fn get_display_row() {
    let mut cpu = Chip8::new(DummyInput {}, FakeDisplay {});
    // 10000101 -> 0x85
    cpu.set_pixel(0, 0, true);
    cpu.set_pixel(1, 0, false);
    cpu.set_pixel(2, 0, false);
    cpu.set_pixel(3, 0, false);
    cpu.set_pixel(4, 0, false);
    cpu.set_pixel(5, 0, true);
    cpu.set_pixel(6, 0, false);
    cpu.set_pixel(7, 0, true);

    // 10000000 -> 128
    cpu.set_pixel(60, 0, true);
    cpu.set_pixel(61, 0, false);
    cpu.set_pixel(62, 0, false);
    cpu.set_pixel(63, 0, false);
    let row = cpu.get_display_row(60, 0);
    assert_eq!(128, row);
}

#[test]
fn display_row_reads_whole_byte() {
    let mut cpu = machine();
    cpu.set_display_row(0, 3, 0x85);
    assert_eq!(cpu.get_display_row(0, 3), 0x85);
    assert!(cpu.pixel(0, 3));
    assert!(!cpu.pixel(1, 3));
    assert!(cpu.pixel(7, 3));
}

#[test]
fn display_row_clips_at_right_edge() {
    let mut cpu = machine();
    cpu.set_display_row(60, 1, 0xFF);
    assert!(cpu.pixel(63, 1));
    assert!(!cpu.pixel(0, 1));
    assert_eq!(cpu.get_display_row(60, 1), 0xF0);
}

#[test]
fn add_sets_carry_on_overflow() {
    let mut cpu = machine();
    run(&mut cpu, 0x60, 244).unwrap();
    run(&mut cpu, 0x61, 244).unwrap();
    assert_eq!(run(&mut cpu, 0x80, 0x14), Ok(Outcome::Continue));
    assert_eq!(cpu.register_get_value(0), 232);
    assert_eq!(cpu.register_get_value(0xF), 1);
}

#[test]
fn add_clears_carry_without_overflow() {
    let mut cpu = machine();
    run(&mut cpu, 0x60, 100).unwrap();
    run(&mut cpu, 0x61, 155).unwrap();
    run(&mut cpu, 0x6F, 7).unwrap();
    run(&mut cpu, 0x80, 0x14).unwrap();
    assert_eq!(cpu.register_get_value(0), 255);
    assert_eq!(cpu.register_get_value(0xF), 0);
}

#[test]
fn subtract_with_borrow() {
    let mut cpu = machine();
    run(&mut cpu, 0x62, 5).unwrap();
    run(&mut cpu, 0x63, 10).unwrap();
    run(&mut cpu, 0x82, 0x35).unwrap();
    assert_eq!(cpu.register_get_value(2), 251);
    assert_eq!(cpu.register_get_value(0xF), 0);
}

#[test]
fn subtract_without_borrow() {
    let mut cpu = machine();
    run(&mut cpu, 0x62, 10).unwrap();
    run(&mut cpu, 0x63, 10).unwrap();
    run(&mut cpu, 0x82, 0x35).unwrap();
    assert_eq!(cpu.register_get_value(2), 0);
    assert_eq!(cpu.register_get_value(0xF), 1);
}

#[test]
fn reverse_subtract_writes_second_register() {
    let mut cpu = machine();
    run(&mut cpu, 0x64, 10).unwrap();
    run(&mut cpu, 0x65, 3).unwrap();
    run(&mut cpu, 0x84, 0x57).unwrap();
    assert_eq!(cpu.register_get_value(5), 249);
    assert_eq!(cpu.register_get_value(4), 10);
    assert_eq!(cpu.register_get_value(0xF), 0);
}

#[test]
fn add_value_wraps_without_flag() {
    let mut cpu = machine();
    run(&mut cpu, 0x6F, 9).unwrap();
    run(&mut cpu, 0x61, 250).unwrap();
    run(&mut cpu, 0x71, 10).unwrap();
    assert_eq!(cpu.register_get_value(1), 4);
    assert_eq!(cpu.register_get_value(0xF), 9);
}

#[test]
fn logic_operations() {
    let mut cpu = machine();
    run(&mut cpu, 0x61, 0b1100).unwrap();
    run(&mut cpu, 0x62, 0b1010).unwrap();
    run(&mut cpu, 0x63, 0b1100).unwrap();
    run(&mut cpu, 0x64, 0b1100).unwrap();
    run(&mut cpu, 0x81, 0x21).unwrap();
    run(&mut cpu, 0x83, 0x22).unwrap();
    run(&mut cpu, 0x84, 0x23).unwrap();
    assert_eq!(cpu.register_get_value(1), 0b1110);
    assert_eq!(cpu.register_get_value(3), 0b1000);
    assert_eq!(cpu.register_get_value(4), 0b0110);
    run(&mut cpu, 0x85, 0x20).unwrap();
    assert_eq!(cpu.register_get_value(5), 0b1010);
}

#[test]
fn legacy_shift_copies_second_register() {
    let mut cpu = machine();
    run(&mut cpu, 0x61, 0x01).unwrap();
    run(&mut cpu, 0x62, 0x81).unwrap();
    run(&mut cpu, 0x81, 0x2E).unwrap();
    assert_eq!(cpu.register_get_value(1), 0x02);
    assert_eq!(cpu.register_get_value(0xF), 1);
    run(&mut cpu, 0x63, 0x00).unwrap();
    run(&mut cpu, 0x83, 0x26).unwrap();
    assert_eq!(cpu.register_get_value(3), 0x40);
    assert_eq!(cpu.register_get_value(0xF), 1);
}

#[test]
fn super_chip_shift_ignores_second_register() {
    let mut cpu = Chip8::with_quirks(DummyInput {}, FakeDisplay {}, true);
    cpu.execute_instruction(&Instruction::new(0x61, 0x03), &readings()).unwrap();
    cpu.execute_instruction(&Instruction::new(0x62, 0x80), &readings()).unwrap();
    cpu.execute_instruction(&Instruction::new(0x81, 0x2E), &readings()).unwrap();
    assert_eq!(cpu.register_get_value(1), 0x06);
    assert_eq!(cpu.register_get_value(0xF), 0);
    cpu.execute_instruction(&Instruction::new(0x81, 0x26), &readings()).unwrap();
    assert_eq!(cpu.register_get_value(1), 0x03);
    assert_eq!(cpu.register_get_value(0xF), 0);
}

#[test]
fn load_rom_places_bytes_at_program_area() {
    let mut cpu = machine();
    cpu.load_rom_bytes(vec![0xA2, 0x05, 0xF0]);
    assert_eq!(cpu.memory(0x200), 0xA2);
    assert_eq!(cpu.memory(0x201), 0x05);
    assert_eq!(cpu.memory(0x202), 0xF0);
    assert_eq!(cpu.memory(0x203), 0x00);
    assert_eq!(cpu.pc(), 0x200);
}

#[test]
fn new_machine_holds_fonts() {
    let cpu = machine();
    assert_eq!(cpu.memory(49), 0x00);
    assert_eq!(cpu.memory(50), 0xF0);
    assert_eq!(cpu.memory(55), 0x20);
    assert_eq!(cpu.memory(129), 0x80);
    assert_eq!(cpu.memory(130), 0x00);
    assert_eq!(cpu.pc(), 0x200);
    assert_eq!(cpu.index(), 0);
    assert_eq!(cpu.stack_depth(), 0);
}

#[test]
fn font_address_of_digit_a() {
    let mut cpu = machine();
    run(&mut cpu, 0x63, 0x0A).unwrap();
    run(&mut cpu, 0xF3, 0x29).unwrap();
    assert_eq!(cpu.index(), 50 + 10 * 5);
    run(&mut cpu, 0x63, 0xFA).unwrap();
    run(&mut cpu, 0xF3, 0x29).unwrap();
    assert_eq!(cpu.index(), 100);
}

#[test]
fn clear_then_jump_draws_one_blank_frame() {
    let frames = Rc::new(RefCell::new(Vec::new()));
    let mut cpu = Chip8::new(DummyInput {}, RecordingDisplay { frames: frames.clone() });
    cpu.set_pixel(5, 5, true);
    cpu.load_rom_bytes(vec![0x00, 0xE0, 0x12, 0x02]);
    for _ in 0..1000 {
        assert!(step(&mut cpu, 0).is_ok());
    }
    assert_eq!(frames.borrow().len(), 1);
    assert_eq!(frames.borrow()[0], [[false; 32]; 64]);
    assert_eq!(cpu.pc(), 0x202);
}

#[test]
fn clear_then_jump_to_start_runs_without_error() {
    let frames = Rc::new(RefCell::new(Vec::new()));
    let mut cpu = Chip8::new(DummyInput {}, RecordingDisplay { frames: frames.clone() });
    cpu.load_rom_bytes(vec![0x00, 0xE0, 0x12, 0x00]);
    assert_eq!(step(&mut cpu, 0), Ok(Outcome::Redraw));
    assert_eq!(step(&mut cpu, 0), Ok(Outcome::Continue));
    assert_eq!(cpu.pc(), 0x200);
    for _ in 0..1000 {
        assert!(step(&mut cpu, 0).is_ok());
    }
    assert_eq!(frames.borrow().len(), 501);
    assert!(frames.borrow().iter().all(|f| *f == [[false; 32]; 64]));
}

#[test]
fn draw_reports_collision_and_clips() {
    let frames = Rc::new(RefCell::new(Vec::new()));
    let mut cpu = Chip8::new(DummyInput {}, RecordingDisplay { frames: frames.clone() });
    // V0 = 62, V1 = 31, I = font sprite of 0 (0xF0 0x90 ...), draw two rows.
    cpu.load_rom_bytes(vec![0x60, 62, 0x61, 31, 0xA0, 50, 0xD0, 0x12, 0xD0, 0x12]);
    for _ in 0..3 {
        assert_eq!(step(&mut cpu, 0), Ok(Outcome::Continue));
    }
    assert_eq!(step(&mut cpu, 0), Ok(Outcome::Redraw));
    assert!(cpu.pixel(62, 31));
    assert!(cpu.pixel(63, 31));
    assert!(!cpu.pixel(0, 31));
    assert!(!cpu.pixel(62, 0));
    assert_eq!(cpu.display(), frames.borrow()[0]);
    assert_eq!(cpu.register_get_value(0xF), 0);
    assert_eq!(step(&mut cpu, 0), Ok(Outcome::Redraw));
    assert!(!cpu.pixel(62, 31));
    assert_eq!(cpu.register_get_value(0xF), 1);
    assert_eq!(frames.borrow().len(), 2);
}

#[test]
fn draw_wraps_start_position() {
    let mut cpu = machine();
    run(&mut cpu, 0x60, 64 + 3).unwrap();
    run(&mut cpu, 0x61, 32 + 2).unwrap();
    run(&mut cpu, 0xA0, 50).unwrap();
    assert_eq!(run(&mut cpu, 0xD0, 0x11), Ok(Outcome::Redraw));
    assert_eq!(cpu.get_display_row(3, 2), 0xF0);
}

#[test]
fn decimal_conversion_writes_digits() {
    let mut cpu = machine();
    run(&mut cpu, 0x65, 254).unwrap();
    run(&mut cpu, 0xA3, 0x00).unwrap();
    run(&mut cpu, 0xF5, 0x33).unwrap();
    assert_eq!(cpu.memory(0x300), 2);
    assert_eq!(cpu.memory(0x301), 5);
    assert_eq!(cpu.memory(0x302), 4);
}

#[test]
fn store_and_load_registers() {
    let mut cpu = machine();
    run(&mut cpu, 0x60, 7).unwrap();
    run(&mut cpu, 0x61, 8).unwrap();
    run(&mut cpu, 0x62, 9).unwrap();
    run(&mut cpu, 0xA4, 0x00).unwrap();
    run(&mut cpu, 0xF1, 0x55).unwrap();
    assert_eq!(cpu.memory(0x400), 7);
    assert_eq!(cpu.memory(0x401), 8);
    assert_eq!(cpu.memory(0x402), 0);
    run(&mut cpu, 0x60, 0).unwrap();
    run(&mut cpu, 0x61, 0).unwrap();
    run(&mut cpu, 0xF2, 0x65).unwrap();
    assert_eq!(cpu.register_get_value(0), 7);
    assert_eq!(cpu.register_get_value(1), 8);
    assert_eq!(cpu.register_get_value(2), 0);
    assert_eq!(cpu.index(), 0x400);
}

#[test]
fn add_to_index_flags_past_last_address() {
    let mut cpu = machine();
    run(&mut cpu, 0xAF, 0xFF).unwrap();
    run(&mut cpu, 0x62, 1).unwrap();
    run(&mut cpu, 0xF2, 0x1E).unwrap();
    assert_eq!(cpu.index(), 0x1000);
    assert_eq!(cpu.register_get_value(0xF), 1);
    run(&mut cpu, 0xA1, 0x00).unwrap();
    run(&mut cpu, 0xF2, 0x1E).unwrap();
    assert_eq!(cpu.index(), 0x101);
    assert_eq!(cpu.register_get_value(0xF), 0);
}

#[test]
fn skips_and_jumps() {
    let mut cpu = machine();
    run(&mut cpu, 0x61, 0x33).unwrap();
    run(&mut cpu, 0x31, 0x33).unwrap();
    assert_eq!(cpu.pc(), 0x202);
    run(&mut cpu, 0x41, 0x33).unwrap();
    assert_eq!(cpu.pc(), 0x202);
    run(&mut cpu, 0x41, 0x34).unwrap();
    assert_eq!(cpu.pc(), 0x204);
    run(&mut cpu, 0x62, 0x33).unwrap();
    run(&mut cpu, 0x51, 0x20).unwrap();
    assert_eq!(cpu.pc(), 0x206);
    run(&mut cpu, 0x91, 0x20).unwrap();
    assert_eq!(cpu.pc(), 0x206);
    run(&mut cpu, 0x13, 0x45).unwrap();
    assert_eq!(cpu.pc(), 0x345);
    run(&mut cpu, 0x60, 0x10).unwrap();
    run(&mut cpu, 0xB3, 0x00).unwrap();
    assert_eq!(cpu.pc(), 0x310);
}

#[test]
fn call_and_return() {
    let mut cpu = machine();
    cpu.load_rom_bytes(vec![0x23, 0x00]);
    assert_eq!(step(&mut cpu, 0), Ok(Outcome::Continue));
    assert_eq!(cpu.pc(), 0x300);
    assert_eq!(cpu.stack_depth(), 1);
    assert_eq!(run(&mut cpu, 0x00, 0xEE), Ok(Outcome::Continue));
    assert_eq!(cpu.pc(), 0x202);
    assert_eq!(cpu.stack_depth(), 0);
}

#[test]
fn return_on_empty_stack_fails() {
    let mut cpu = machine();
    assert_eq!(run(&mut cpu, 0x00, 0xEE), Err(Chip8Error::StackUnderflow));
}

#[test]
fn fetch_past_memory_fails() {
    let mut cpu = machine();
    run(&mut cpu, 0x1F, 0xFF).unwrap();
    assert_eq!(step(&mut cpu, 0), Err(Chip8Error::OutOfMemory));
    assert_eq!(cpu.pc(), 0xFFF);
}

#[test]
fn access_past_memory_through_index_fails() {
    let mut cpu = machine();
    run(&mut cpu, 0xAF, 0xFE).unwrap();
    assert_eq!(run(&mut cpu, 0xF0, 0x33), Err(Chip8Error::IndexOutOfRange));
    assert_eq!(run(&mut cpu, 0xD0, 0x03), Err(Chip8Error::IndexOutOfRange));
    assert_eq!(run(&mut cpu, 0xF2, 0x55), Err(Chip8Error::IndexOutOfRange));
    assert_eq!(run(&mut cpu, 0xF0, 0x65), Ok(Outcome::Continue));
}

#[test]
fn unknown_family_fails() {
    let mut cpu = machine();
    let inst = Instruction {
        first_byte: 0,
        second_byte: 0,
        first_nibble: 0x10,
        second_nibble: 0,
        third_nibble: 0,
        fourth_nibble: 0,
    };
    assert_eq!(cpu.execute_instruction(&inst, &readings()), Err(Chip8Error::UnknownInstruction(0x10)));
}

#[test]
fn unknown_sub_opcode_is_ignored() {
    let mut cpu = machine();
    assert_eq!(run(&mut cpu, 0x81, 0x2F), Ok(Outcome::Continue));
    assert_eq!(run(&mut cpu, 0xE1, 0x00), Ok(Outcome::Continue));
    assert_eq!(run(&mut cpu, 0xF1, 0x99), Ok(Outcome::Continue));
    assert_eq!(run(&mut cpu, 0x01, 0x23), Ok(Outcome::Continue));
    assert_eq!(cpu.pc(), 0x200);
}

#[test]
fn timer_instructions() {
    let mut cpu = machine();
    run(&mut cpu, 0x64, 42).unwrap();
    assert_eq!(run(&mut cpu, 0xF4, 0x15), Ok(Outcome::SetDelayTimer(42)));
    assert_eq!(run(&mut cpu, 0xF4, 0x18), Ok(Outcome::SetSoundTimer(42)));
    let r = Readings { delay_timer: 17, random: 0, key_pressed: false, key: 0 };
    cpu.execute_instruction(&Instruction::new(0xF5, 0x07), &r).unwrap();
    assert_eq!(cpu.register_get_value(5), 17);
}

#[test]
fn random_is_masked() {
    let mut cpu = machine();
    let r = Readings { delay_timer: 0, random: 0xAB, key_pressed: false, key: 0 };
    cpu.execute_instruction(&Instruction::new(0xC1, 0x0F), &r).unwrap();
    assert_eq!(cpu.register_get_value(1), 0x0B);
    cpu.load_rom_bytes(vec![0xC2, 0x0F, 0xC3, 0x00]);
    step(&mut cpu, 0).unwrap();
    step(&mut cpu, 0).unwrap();
    assert!(cpu.register_get_value(2) <= 0x0F);
    assert_eq!(cpu.register_get_value(3), 0);
}

#[test]
fn key_instructions() {
    let mut cpu = Chip8::new(OneKeyInput { key: 7 }, FakeDisplay {});
    cpu.load_rom_bytes(vec![0xF1, 0x0A, 0xE1, 0x9E, 0x00, 0x00, 0xE1, 0xA1, 0x00, 0x00]);
    step(&mut cpu, 0).unwrap();
    assert_eq!(cpu.register_get_value(1), 7);
    step(&mut cpu, 0).unwrap();
    assert_eq!(cpu.pc(), 0x206);
    step(&mut cpu, 0).unwrap();
    assert_eq!(cpu.pc(), 0x208);
}

#[test]
fn instruction_text() {
    assert_eq!(Instruction::new(0x12, 0xE3).to_string(), "0x12 0xe3");
    assert_eq!(Instruction::new(0x00, 0x0A).to_string(), "0x00 0x0a");
}

#[test]
fn requests_follow_the_instruction() {
    let mut cpu = machine();
    run(&mut cpu, 0x63, 0x09).unwrap();
    assert_eq!(cpu.request_for(&Instruction::new(0xE3, 0x9E)), Request::KeyState(9));
    assert_eq!(cpu.request_for(&Instruction::new(0xE3, 0xA1)), Request::KeyState(9));
    assert_eq!(cpu.request_for(&Instruction::new(0xF3, 0x0A)), Request::KeyWait);
    assert_eq!(cpu.request_for(&Instruction::new(0xF3, 0x07)), Request::DelayTimer);
    assert_eq!(cpu.request_for(&Instruction::new(0xE3, 0x00)), Request::Nothing);
    assert_eq!(cpu.request_for(&Instruction::new(0xC3, 0xFF)), Request::Nothing);
    assert_eq!(cpu.request_for(&Instruction::new(0x00, 0xE0)), Request::Nothing);
}

#[test]
fn replies_reach_the_registers() {
    let mut cpu = machine();
    cpu.execute_with_reply(&Instruction::new(0xF2, 0x07), Reply::DelayTimer(33)).unwrap();
    assert_eq!(cpu.register_get_value(2), 33);
    cpu.execute_with_reply(&Instruction::new(0xF4, 0x0A), Reply::Key(0xB)).unwrap();
    assert_eq!(cpu.register_get_value(4), 0xB);
    cpu.execute_with_reply(&Instruction::new(0xE4, 0x9E), Reply::KeyState(true)).unwrap();
    assert_eq!(cpu.pc(), 0x202);
    cpu.execute_with_reply(&Instruction::new(0xE4, 0xA1), Reply::KeyState(true)).unwrap();
    assert_eq!(cpu.pc(), 0x202);
    cpu.execute_with_reply(&Instruction::new(0xE4, 0xA1), Reply::KeyState(false)).unwrap();
    assert_eq!(cpu.pc(), 0x204);
}

#[test]
fn empty_rom_runs_out_of_memory_without_drawing() {
    let frames = Rc::new(RefCell::new(Vec::new()));
    let mut cpu = Chip8::new(DummyInput {}, RecordingDisplay { frames: frames.clone() });
    cpu.load_rom_bytes(vec![]);
    let mut steps = 0;
    let error = loop {
        match step(&mut cpu, 0) {
            Ok(outcome) => assert_eq!(outcome, Outcome::Continue),
            Err(e) => break e,
        }
        steps += 1;
    };
    assert_eq!(error, Chip8Error::OutOfMemory);
    assert_eq!(steps, (4096 - 0x200) / 2);
    assert!(frames.borrow().is_empty());
}

#[test]
fn font_digit_draw_notifies_once() {
    let frames = Rc::new(RefCell::new(Vec::new()));
    let mut cpu = Chip8::new(DummyInput {}, RecordingDisplay { frames: frames.clone() });
    cpu.load_rom_bytes(vec![0xA0, 0x32, 0xD0, 0x15, 0x12, 0x04]);
    for _ in 0..100 {
        assert!(step(&mut cpu, 0).is_ok());
    }
    let zero: [u8; 5] = [0xF0, 0x90, 0x90, 0x90, 0xF0];
    assert_eq!(frames.borrow().len(), 1);
    let frame = frames.borrow()[0];
    for c in 0..64 {
        for r in 0..32 {
            let lit = c < 8 && r < 5 && (zero[r] >> (7 - c)) & 1 == 1;
            assert_eq!(frame[c][r], lit);
        }
    }
    assert_eq!(cpu.register_get_value(0xF), 0);
}
