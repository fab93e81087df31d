use chip8::cpu::Cpu;
use chip8::gfx::{wrapX, wrapY, Gfx};
use chip8::instr::{decode, Instr};
use chip8::keys::{keypad_key, KeyEvent, Keys};
use chip8::machine::{Fault, Machine, ScreenUpdate, Tick};
use chip8::memory::{load_fonts, load_rom, Memory, START_POS};
use chip8::stack::Stack;

fn machine_with(program: &[u8]) -> Machine {
    let mut memory = Memory::new();
    load_rom(&mut memory, &program.to_vec());
    load_fonts(&mut memory);
    Machine::new(memory)
}

fn run(m: &mut Machine) -> ScreenUpdate {
    let opcode = m.fetch().expect("program counter inside memory");
    assert_eq!(m.fault(opcode), None);
    m.execute_opcode(opcode).expect("a random byte")
}

#[test]
fn keys_start_up_and_read_back() {
    let mut keys = Keys::new();
    for k in 0..16u8 {
        assert!(!keys.check_key(k));
    }
    keys.set_key(0xa, true);
    assert!(keys.check_key(0xa));
    assert!(!keys.check_key(0xb));
    keys.set_key(0xa, false);
    assert!(!keys.check_key(0xa));
}

#[test]
fn key_past_keypad_reads_key_zero() {
    let mut keys = Keys::new();
    keys.set_key(0, true);
    assert!(keys.check_key(0x10));
    assert!(keys.check_key(0xff));
    keys.set_key(0x20, true);
    assert_eq!(keys.pressed, { let mut p = [false; 16]; p[0] = true; p });
}

#[test]
fn keyboard_layout() {
    assert_eq!(keypad_key('1'), Some(0));
    assert_eq!(keypad_key('4'), Some(3));
    assert_eq!(keypad_key('q'), Some(4));
    assert_eq!(keypad_key('R'), Some(7));
    assert_eq!(keypad_key('a'), Some(8));
    assert_eq!(keypad_key('f'), Some(11));
    assert_eq!(keypad_key('z'), Some(12));
    assert_eq!(keypad_key('V'), Some(15));
    assert_eq!(keypad_key('5'), None);
    assert_eq!(keypad_key('p'), None);
}

#[test]
fn registers_read_after_write() {
    let mut cpu = Cpu::new();
    assert_eq!(cpu.get_reg(3), 0);
    cpu.set_reg(3, 0x42);
    assert_eq!(cpu.get_reg(3), 0x42);
    assert_eq!(cpu.get_reg(4), 0);
    cpu.set_reg(0, 7);
    assert_eq!(cpu.get_reg(0x10), 7);
    cpu.set_reg(0x10, 9);
    assert_eq!(cpu.get_reg(0), 7);
    cpu.set_add_reg(0x321);
    assert_eq!(cpu.get_add_reg(), 0x321);
}

#[test]
fn wrapping_coordinates() {
    assert_eq!(wrapX(10, 3), 13);
    assert_eq!(wrapX(63, 0), 63);
    assert_eq!(wrapX(60, 7), 3);
    assert_eq!(wrapX(100, 0), 36);
    assert_eq!(wrapX(255, 0), 1);
    assert_eq!(wrapX(255, 2), 1);
    assert_eq!(wrapY(31, 1), 0);
    assert_eq!(wrapY(30, 5), 3);
    assert_eq!(wrapY(250, 0), 6);
    assert_eq!(wrapY(5, 2), 7);
}

#[test]
fn draw_row_xors_and_reports_collision() {
    let mut gfx = Gfx::new();
    assert!(!gfx.draw(0, 0, 0b1010_0001));
    assert_eq!(gfx.pixel(0, 0), 1);
    assert_eq!(gfx.pixel(1, 0), 0);
    assert_eq!(gfx.pixel(2, 0), 1);
    assert_eq!(gfx.pixel(7, 0), 1);
    assert!(gfx.draw(0, 0, 0b1000_0000));
    assert_eq!(gfx.pixel(0, 0), 0);
    assert!(!gfx.draw(1, 0, 0b1000_0000));
    assert_eq!(gfx.pixel(1, 0), 1);
}

#[test]
fn draw_row_twice_restores_screen() {
    let mut gfx = Gfx::new();
    gfx.draw(3, 5, 0xff);
    gfx.draw(60, 6, 0b1100_1100);
    let before = gfx.screen;
    gfx.draw(60, 5, 0b1011_0110);
    assert_ne!(gfx.screen, before);
    gfx.draw(60, 5, 0b1011_0110);
    assert_eq!(gfx.screen, before);
}

#[test]
fn draw_wraps_at_right_edge() {
    let mut gfx = Gfx::new();
    gfx.draw(62, 1, 0b1111_0000);
    assert_eq!(gfx.pixel(62, 1), 1);
    assert_eq!(gfx.pixel(63, 1), 1);
    assert_eq!(gfx.pixel(0, 1), 1);
    assert_eq!(gfx.pixel(1, 1), 1);
    assert_eq!(gfx.pixel(2, 1), 0);
}

#[test]
fn fonts_and_rom_loading() {
    let mut memory = Memory::new();
    load_rom(&mut memory, &vec![0x12, 0x34, 0x56]);
    assert_eq!(memory.memory[START_POS], 0x12);
    assert_eq!(memory.memory[START_POS + 2], 0x56);
    assert_eq!(memory.memory[START_POS + 3], 0);
    load_fonts(&mut memory);
    assert_eq!(&memory.memory[0..5], &[0xf0, 0x90, 0x90, 0x90, 0xf0]);
    assert_eq!(&memory.memory[75..80], &[0x80, 0x80, 0xf0, 0x80, 0xf0]);
    assert_eq!(memory.memory[80], 0);
    assert_eq!(memory.memory[START_POS + 1], 0x34);
}

#[test]
fn decoding() {
    assert_eq!(decode(0x00E0), Instr::ClearScreen);
    assert_eq!(decode(0x00EE), Instr::Return);
    assert_eq!(decode(0x0123), Instr::Sys { addr: 0x123 });
    assert_eq!(decode(0x1ABC), Instr::Jump { addr: 0xABC });
    assert_eq!(decode(0x8AB4), Instr::AddReg { x: 0xA, y: 0xB });
    assert_eq!(decode(0x8A0E), Instr::ShiftLeft { x: 0xA });
    assert_eq!(decode(0xD125), Instr::Draw { x: 1, y: 2, n: 5 });
    assert_eq!(decode(0xF365), Instr::LoadRegs { x: 3 });
    assert_eq!(decode(0x5121), Instr::Unknown);
    assert_eq!(decode(0x8128), Instr::Unknown);
    assert_eq!(decode(0xE1FF), Instr::Unknown);
}

#[test]
fn new_machine_state() {
    let m = machine_with(&[]);
    assert_eq!(m.position, START_POS);
    assert_eq!(m.stack.stack.len(), 0);
    assert_eq!(m.delay_timer, 0);
    assert_eq!(m.clock_count, 0);
    let s = Stack::new();
    assert!(s.stack.is_empty());
}

#[test]
fn fetch_reads_big_endian() {
    let m = machine_with(&[0xA2, 0xF0]);
    assert_eq!(m.fetch(), Some(0xA2F0));
    let mut m = machine_with(&[]);
    m.position = 4095;
    assert_eq!(m.fetch(), None);
    m.position = 4094;
    assert_eq!(m.fetch(), Some(0));
}

#[test]
fn load_add_and_carry() {
    let mut m = machine_with(&[0x60, 0xF0, 0x61, 0x20, 0x80, 0x14, 0x72, 0xFF, 0x72, 0x03]);
    run(&mut m);
    run(&mut m);
    assert_eq!(run(&mut m), ScreenUpdate::Unchanged);
    assert_eq!(m.cpu.get_reg(0), 0x10);
    assert_eq!(m.cpu.get_reg(0xf), 1);
    run(&mut m);
    run(&mut m);
    assert_eq!(m.cpu.get_reg(2), 0x02);
    assert_eq!(m.position, START_POS + 10);
}

#[test]
fn subtraction_wraps_with_borrow_flag() {
    // V0 = 3, V1 = 5; V0 -= V1 wraps to 0xFE, VF = 0.
    let mut m = machine_with(&[0x60, 0x03, 0x61, 0x05, 0x80, 0x15]);
    run(&mut m);
    run(&mut m);
    run(&mut m);
    assert_eq!(m.cpu.get_reg(0), 0xFE);
    assert_eq!(m.cpu.get_reg(0xf), 0);
    // V2 = 9, V3 = 4; V2 -= V3 gives 5, VF = 1.
    let mut m = machine_with(&[0x62, 0x09, 0x63, 0x04, 0x82, 0x35, 0x83, 0x27]);
    run(&mut m);
    run(&mut m);
    run(&mut m);
    assert_eq!(m.cpu.get_reg(2), 5);
    assert_eq!(m.cpu.get_reg(0xf), 1);
    // V3 = V2 - V3 = 5 - 4 = 1, VF = 1.
    run(&mut m);
    assert_eq!(m.cpu.get_reg(3), 1);
    assert_eq!(m.cpu.get_reg(0xf), 1);
}

#[test]
fn shifts_and_logic() {
    let mut m = machine_with(&[0x60, 0x81, 0x80, 0x06, 0x61, 0x81, 0x81, 0x0E, 0x62, 0x0C, 0x63, 0x0A, 0x82, 0x31, 0x84, 0x33]);
    run(&mut m);
    run(&mut m);
    assert_eq!(m.cpu.get_reg(0), 0x40);
    assert_eq!(m.cpu.get_reg(0xf), 1);
    run(&mut m);
    run(&mut m);
    assert_eq!(m.cpu.get_reg(1), 0x02);
    assert_eq!(m.cpu.get_reg(0xf), 1);
    run(&mut m);
    run(&mut m);
    run(&mut m);
    assert_eq!(m.cpu.get_reg(2), 0x0E);
    run(&mut m);
    assert_eq!(m.cpu.get_reg(4), 0x0A);
}

#[test]
fn skips() {
    let mut m = machine_with(&[0x60, 0x07, 0x30, 0x07, 0x00, 0x00, 0x40, 0x07, 0x51, 0x20]);
    run(&mut m);
    run(&mut m);
    assert_eq!(m.position, START_POS + 6);
    run(&mut m);
    assert_eq!(m.position, START_POS + 8);
    run(&mut m);
    assert_eq!(m.position, START_POS + 12);
}

#[test]
fn call_and_return() {
    let mut program = vec![0u8; 0x20];
    program[0] = 0x22;
    program[1] = 0x10;
    program[0x10] = 0x00;
    program[0x11] = 0xEE;
    let mut m = machine_with(&program);
    run(&mut m);
    assert_eq!(m.position, 0x210);
    assert_eq!(m.stack.stack, vec![0x202]);
    run(&mut m);
    assert_eq!(m.position, 0x202);
    assert!(m.stack.stack.is_empty());
}

#[test]
fn jumps() {
    let mut m = machine_with(&[0x60, 0x05, 0xB3, 0x00]);
    run(&mut m);
    run(&mut m);
    assert_eq!(m.position, 0x305);
    let mut m = machine_with(&[0x14, 0x56]);
    run(&mut m);
    assert_eq!(m.position, 0x456);
}

#[test]
fn bcd_and_register_store_load() {
    let mut m = machine_with(&[0x60, 0xFE, 0xA3, 0x00, 0xF0, 0x33, 0x61, 0x11, 0x62, 0x22, 0xF2, 0x55, 0x60, 0x00, 0xF2, 0x65]);
    run(&mut m);
    run(&mut m);
    run(&mut m);
    assert_eq!(&m.memory.memory[0x300..0x303], &[2, 5, 4]);
    run(&mut m);
    run(&mut m);
    run(&mut m);
    assert_eq!(&m.memory.memory[0x300..0x303], &[0xFE, 0x11, 0x22]);
    run(&mut m);
    assert_eq!(m.cpu.get_reg(0), 0);
    run(&mut m);
    assert_eq!(m.cpu.get_reg(0), 0xFE);
    assert_eq!(m.cpu.get_reg(1), 0x11);
    assert_eq!(m.cpu.get_reg(2), 0x22);
    assert_eq!(m.cpu.get_add_reg(), 0x300);
}

#[test]
fn font_lookup_and_index_add() {
    let mut m = machine_with(&[0x60, 0x0B, 0xF0, 0x29, 0xF0, 0x1E, 0x61, 0x20, 0xF1, 0x29]);
    run(&mut m);
    run(&mut m);
    assert_eq!(m.cpu.get_add_reg(), 55);
    let i = m.cpu.get_add_reg() as usize;
    assert_eq!(&m.memory.memory[i..i + 5], &[0xe0, 0x90, 0xe0, 0x90, 0xe0]);
    run(&mut m);
    assert_eq!(m.cpu.get_add_reg(), 66);
    run(&mut m);
    run(&mut m);
    assert_eq!(m.cpu.get_add_reg(), 0);
}

#[test]
fn timers_and_wait_key() {
    let mut m = machine_with(&[0x60, 0x09, 0xF0, 0x15, 0xF0, 0x18, 0xF1, 0x07, 0xF0, 0x0A]);
    for _ in 0..4 {
        run(&mut m);
    }
    assert_eq!(m.delay_timer, 9);
    assert_eq!(m.sound_timer, 9);
    assert_eq!(m.cpu.get_reg(1), 9);
    // FX0A waits: with no key down the program counter stays.
    run(&mut m);
    run(&mut m);
    assert_eq!(m.position, START_POS + 8);
    assert_eq!(m.cpu.get_reg(0), 9);
    m.keys.set_key(7, true);
    m.keys.set_key(3, true);
    run(&mut m);
    assert_eq!(m.cpu.get_reg(0), 3);
    assert_eq!(m.position, START_POS + 10);
}

#[test]
fn clear_and_draw() {
    // I = font glyph of 0; draw it at (V0, V1) = (0, 0); draw again: collision.
    let mut m = machine_with(&[0xA0, 0x00, 0xD0, 0x15, 0xD0, 0x15, 0xD0, 0x15, 0x00, 0xE0]);
    run(&mut m);
    assert_eq!(run(&mut m), ScreenUpdate::Drawn);
    assert_eq!(m.cpu.get_reg(0xf), 0);
    assert_eq!(m.gfx.pixel(0, 0), 1);
    assert_eq!(m.gfx.pixel(3, 0), 1);
    assert_eq!(m.gfx.pixel(4, 0), 0);
    assert_eq!(m.gfx.pixel(1, 1), 0);
    assert_eq!(m.gfx.pixel(3, 4), 1);
    run(&mut m);
    assert_eq!(m.cpu.get_reg(0xf), 1);
    assert!(m.gfx.screen.iter().all(|&p| p == 0));
    run(&mut m);
    assert_eq!(run(&mut m), ScreenUpdate::Cleared);
    assert!(m.gfx.screen.iter().all(|&p| p == 0));
}

#[test]
fn key_skips() {
    let mut m = machine_with(&[0x60, 0x05, 0xE0, 0x9E, 0x00, 0x00, 0xE0, 0xA1]);
    run(&mut m);
    m.keys.set_key(5, true);
    run(&mut m);
    assert_eq!(m.position, START_POS + 6);
    run(&mut m);
    assert_eq!(m.position, START_POS + 8);
}

#[test]
fn faults() {
    let m = machine_with(&[0x51, 0x21]);
    assert_eq!(m.fault(0x5121), Some(Fault::UnknownOpcode));
    assert_eq!(m.fault(0xFFFF), Some(Fault::UnknownOpcode));
    assert_eq!(m.fault(0x00EE), Some(Fault::EmptyStack));
    assert_eq!(m.fault(0x00E0), None);
    let mut m = machine_with(&[]);
    m.cpu.set_add_reg(4094);
    assert_eq!(m.fault(0xF033), Some(Fault::OutOfBounds));
    assert_eq!(m.fault(0xF055), None);
    assert_eq!(m.fault(0xF155), None);
    assert_eq!(m.fault(0xF255), Some(Fault::OutOfBounds));
    assert_eq!(m.fault(0xD012), None);
    assert_eq!(m.fault(0xD013), Some(Fault::OutOfBounds));
    m.cpu.set_add_reg(0xFFF0);
    m.cpu.set_reg(0, 0x20);
    assert_eq!(m.fault(0xF01E), Some(Fault::OutOfBounds));
    m.cpu.set_reg(0, 0x0F);
    assert_eq!(m.fault(0xF01E), None);
}

#[test]
fn draw_coordinate_overflow_faults() {
    let mut m = machine_with(&[]);
    m.cpu.set_reg(0, 121);
    assert_eq!(m.fault(0xD011), Some(Fault::OutOfBounds));
    assert_eq!(m.fault(0xD010), None);
    m.cpu.set_reg(0, 120);
    assert_eq!(m.fault(0xD011), None);
    m.cpu.set_reg(0, 128);
    assert_eq!(m.fault(0xD011), Some(Fault::OutOfBounds));
    m.cpu.set_reg(0, 129);
    assert_eq!(m.fault(0xD011), None);
    m.cpu.set_reg(1, 126);
    assert_eq!(m.fault(0xD012), None);
    assert_eq!(m.fault(0xD013), Some(Fault::OutOfBounds));
}

#[test]
fn random_is_masked() {
    let mut m = machine_with(&[0xC0, 0x00]);
    run(&mut m);
    assert_eq!(m.cpu.get_reg(0), 0);
    let mut seen = [false; 256];
    for _ in 0..200 {
        let mut m = machine_with(&[0xC3, 0x0F]);
        run(&mut m);
        let v = m.cpu.get_reg(3);
        assert!(v <= 0x0F);
        seen[v as usize] = true;
    }
    assert!(seen.iter().filter(|&&b| b).count() > 1);
}

#[test]
fn execute_with_given_random_byte() {
    let mut m = machine_with(&[0xC5, 0x3C]);
    let op = m.fetch().unwrap();
    assert_eq!(m.execute_with_random(op, 0xF5), ScreenUpdate::Unchanged);
    assert_eq!(m.cpu.get_reg(5), 0x34);
}

#[test]
fn clock_cycles_and_timers() {
    let mut m = machine_with(&[]);
    m.delay_timer = 2;
    m.sound_timer = 1;
    assert!(m.begin_cycle());
    m.end_cycle();
    assert_eq!(m.delay_timer, 1);
    assert_eq!(m.sound_timer, 0);
    assert_eq!(m.clock_count, 1);
    assert!(!m.begin_cycle());
    m.end_cycle();
    assert_eq!(m.delay_timer, 1);
    for _ in 2..17 {
        m.begin_cycle();
        m.end_cycle();
    }
    assert_eq!(m.clock_count, 17);
    m.begin_cycle();
    m.end_cycle();
    assert_eq!(m.delay_timer, 0);
    assert_eq!(m.sound_timer, 0);
    m.clock_count = 340;
    assert!(m.begin_cycle());
    assert_eq!(m.clock_count, 0);
}

#[test]
fn execution_writes_memory_only_at_index() {
    let mut m = machine_with(&[0x60, 0x77, 0xA3, 0x00, 0xF3, 0x55, 0x70, 0x01]);
    m.keys.set_key(9, true);
    let before = m.memory.memory;
    for _ in 0..4 {
        run(&mut m);
    }
    for k in 0..4096 {
        if !(0x300..0x310).contains(&k) {
            assert_eq!(m.memory.memory[k], before[k]);
        }
    }
    assert_eq!(&m.memory.memory[0x300..0x304], &[0x77, 0, 0, 0]);
    assert!(m.keys.check_key(9));
    assert_eq!(m.clock_count, 0);
}

#[test]
fn key_events_follow_last_press_or_release() {
    let mut keys = Keys::new();
    let events = vec![
        KeyEvent::Down(1),
        KeyEvent::Down(2),
        KeyEvent::Up(1),
        KeyEvent::Down(40),
        KeyEvent::Down(1),
        KeyEvent::Up(2),
    ];
    assert!(!keys.apply_events(&events));
    assert!(keys.check_key(1));
    assert!(!keys.check_key(2));
    assert_eq!(keys.first_key_down(), Some(1));
    let events = vec![KeyEvent::Up(1), KeyEvent::Quit, KeyEvent::Down(5)];
    assert!(keys.apply_events(&events));
    assert!(!keys.check_key(1));
    assert!(!keys.check_key(5));
    assert_eq!(keys.first_key_down(), None);
}

#[test]
fn ticks_run_every_other_one() {
    let mut m = machine_with(&[0x60, 0x05, 0x70, 0x01, 0x12, 0x00]);
    m.delay_timer = 3;
    assert!(m.runs_cpu_next_tick());
    assert_eq!(m.tick(&vec![]), Tick::Ran { opcode: 0x6005, update: ScreenUpdate::Unchanged });
    assert_eq!(m.delay_timer, 2);
    assert!(!m.runs_cpu_next_tick());
    assert_eq!(m.tick(&vec![KeyEvent::Down(3)]), Tick::Idle);
    assert!(!m.keys.check_key(3));
    assert_eq!(m.tick(&vec![KeyEvent::Down(3)]), Tick::Ran { opcode: 0x7001, update: ScreenUpdate::Unchanged });
    assert!(m.keys.check_key(3));
    assert_eq!(m.cpu.get_reg(0), 6);
    assert_eq!(m.tick(&vec![]), Tick::Idle);
    assert_eq!(m.tick(&vec![]), Tick::Ran { opcode: 0x1200, update: ScreenUpdate::Unchanged });
    assert_eq!(m.position, START_POS);
    assert_eq!(m.clock_count, 5);
    assert_eq!(m.tick(&vec![]), Tick::Idle);
    assert_eq!(m.tick(&vec![KeyEvent::Down(2), KeyEvent::Quit]), Tick::Quit);
}

#[test]
fn ticks_halt_on_faults() {
    let mut m = machine_with(&[0x00, 0xEE]);
    assert_eq!(m.tick(&vec![]), Tick::Halted(Fault::EmptyStack));
    let mut m = machine_with(&[0x51, 0x21]);
    assert_eq!(m.tick(&vec![]), Tick::Halted(Fault::UnknownOpcode));
    let mut m = machine_with(&[]);
    m.position = 4095;
    assert_eq!(m.tick(&vec![]), Tick::Halted(Fault::FetchOutOfBounds));
}
