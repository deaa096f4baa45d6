use chipeite::cpu::{Cpu, CycleOutcome};
use chipeite::memory::key_state::Key;
use chipeite::fault::Fault;
use chipeite::memory::Memory;

fn boot(program: &[u8]) -> (Cpu, Memory) {
    let cpu = Cpu::new(0);
    let mut memory = Memory::new();
    assert!(memory.load_rom(program));
    (cpu, memory)
}

fn step(cpu: &mut Cpu, memory: &mut Memory) -> CycleOutcome {
    match cpu.execute(memory, 0) {
        Ok(out) => out,
        Err(_) => panic!("unexpected fault"),
    }
}

fn fault_of(r: Result<CycleOutcome, Fault>) -> Fault {
    match r {
        Err(f) => f,
        Ok(_) => panic!("expected a fault"),
    }
}

#[test]
fn skip_advances_four_when_equal_two_otherwise() {
    // 3xkk: skip when Vx == kk.
    let (mut cpu, mut memory) = boot(&[0x30, 0x42]);
    memory.registers.set(0, 0x42);
    step(&mut cpu, &mut memory);
    assert_eq!(cpu.program_counter, 0x204);

    let (mut cpu, mut memory) = boot(&[0x30, 0x42]);
    memory.registers.set(0, 0x41);
    step(&mut cpu, &mut memory);
    assert_eq!(cpu.program_counter, 0x202);

    // 4xkk: skip when Vx != kk.
    let (mut cpu, mut memory) = boot(&[0x40, 0x42]);
    memory.registers.set(0, 0x41);
    step(&mut cpu, &mut memory);
    assert_eq!(cpu.program_counter, 0x204);

    // 5xy0: skip when Vx == Vy.
    let (mut cpu, mut memory) = boot(&[0x50, 0x10]);
    step(&mut cpu, &mut memory);
    assert_eq!(cpu.program_counter, 0x204);

    // 9xy0: skip when Vx != Vy.
    let (mut cpu, mut memory) = boot(&[0x90, 0x10]);
    step(&mut cpu, &mut memory);
    assert_eq!(cpu.program_counter, 0x202);
}

#[test]
fn addition_sets_carry_flag() {
    // 8xy4: Vx = 0xFF + 0x01 wraps to 0x00 and carries.
    let (mut cpu, mut memory) = boot(&[0x80, 0x14]);
    memory.registers.set(0, 0xFF);
    memory.registers.set(1, 0x01);
    step(&mut cpu, &mut memory);
    assert_eq!(memory.registers.get(0), 0x00);
    assert_eq!(memory.registers.get(0xF), 1);

    let (mut cpu, mut memory) = boot(&[0x80, 0x14]);
    memory.registers.set(0, 0x01);
    memory.registers.set(1, 0x01);
    step(&mut cpu, &mut memory);
    assert_eq!(memory.registers.get(0), 0x02);
    assert_eq!(memory.registers.get(0xF), 0);
}

#[test]
fn subtraction_sets_no_borrow_flag() {
    // 8xy5: 5 - 3 = 2, no borrow.
    let (mut cpu, mut memory) = boot(&[0x80, 0x15]);
    memory.registers.set(0, 0x05);
    memory.registers.set(1, 0x03);
    step(&mut cpu, &mut memory);
    assert_eq!(memory.registers.get(0), 0x02);
    assert_eq!(memory.registers.get(0xF), 1);

    // 3 - 5 borrows and wraps to 0xFE.
    let (mut cpu, mut memory) = boot(&[0x80, 0x15]);
    memory.registers.set(0, 0x03);
    memory.registers.set(1, 0x05);
    step(&mut cpu, &mut memory);
    assert_eq!(memory.registers.get(0), 0xFE);
    assert_eq!(memory.registers.get(0xF), 0);
}

#[test]
fn shift_right_reports_shifted_out_bit() {
    // 8xy6: 0b11 >> 1 = 0b1, the low bit lands in the flag.
    let (mut cpu, mut memory) = boot(&[0x80, 0x06]);
    memory.registers.set(0, 0b0000_0011);
    step(&mut cpu, &mut memory);
    assert_eq!(memory.registers.get(0), 0b0000_0001);
    assert_eq!(memory.registers.get(0xF), 1);
}

#[test]
fn shift_left_reports_shifted_out_bit() {
    // 8xyE: the high bit lands in the flag.
    let (mut cpu, mut memory) = boot(&[0x80, 0x0E]);
    memory.registers.set(0, 0b1000_0001);
    step(&mut cpu, &mut memory);
    assert_eq!(memory.registers.get(0), 0b0000_0010);
    assert_eq!(memory.registers.get(0xF), 1);
}

#[test]
fn bitwise_family_and_register_copy() {
    let (mut cpu, mut memory) = boot(&[0x80, 0x11, 0x80, 0x22, 0x80, 0x13]);
    memory.registers.set(0, 0b1010);
    memory.registers.set(1, 0b0110);
    memory.registers.set(2, 0b0011);
    step(&mut cpu, &mut memory);
    assert_eq!(memory.registers.get(0), 0b1110);
    step(&mut cpu, &mut memory);
    assert_eq!(memory.registers.get(0), 0b0010);
    step(&mut cpu, &mut memory);
    assert_eq!(memory.registers.get(0), 0b0100);
}

#[test]
fn draw_sets_pixels_then_collides_and_clears() {
    // Dxyn twice at (0,0) with the sprite row 0xFF.
    let (mut cpu, mut memory) = boot(&[0xD0, 0x01, 0xD0, 0x01]);
    memory.registers.image = 0x300;
    memory.ram[0x300] = 0xFF;

    step(&mut cpu, &mut memory);
    for x in 0..8 {
        assert!(memory.framebuffer.grid[x]);
    }
    assert!(!memory.framebuffer.grid[8]);
    assert_eq!(memory.registers.get(0xF), 0);

    step(&mut cpu, &mut memory);
    for x in 0..8 {
        assert!(!memory.framebuffer.grid[x]);
    }
    assert_eq!(memory.registers.get(0xF), 1);
}

#[test]
fn draw_wraps_around_both_edges() {
    let (mut cpu, mut memory) = boot(&[0xD0, 0x11]);
    memory.registers.image = 0x300;
    memory.ram[0x300] = 0xFF;
    memory.registers.set(0, 60);
    memory.registers.set(1, 33);
    step(&mut cpu, &mut memory);
    // Row 33 wraps to row 1; columns 60..63 and 0..3 light up.
    for x in [60usize, 61, 62, 63, 0, 1, 2, 3] {
        assert!(memory.framebuffer.grid[64 + x]);
    }
    assert!(!memory.framebuffer.grid[64 + 4]);
    assert!(!memory.framebuffer.grid[64 + 59]);
}

#[test]
fn clear_screen_blanks_the_grid() {
    let (mut cpu, mut memory) = boot(&[0xD0, 0x01, 0x00, 0xE0]);
    memory.registers.image = 0x300;
    memory.ram[0x300] = 0xFF;
    step(&mut cpu, &mut memory);
    assert!(memory.framebuffer.grid[0]);
    step(&mut cpu, &mut memory);
    assert!(memory.framebuffer.grid.iter().all(|p| !p));
}

#[test]
fn bcd_stores_decimal_digits() {
    // Fx33 with Vx = 234.
    let (mut cpu, mut memory) = boot(&[0xF0, 0x33]);
    memory.registers.set(0, 234);
    memory.registers.image = 0x300;
    step(&mut cpu, &mut memory);
    assert_eq!(memory.ram[0x300], 2);
    assert_eq!(memory.ram[0x301], 3);
    assert_eq!(memory.ram[0x302], 4);
    assert_eq!(memory.registers.image, 0x300);
}

#[test]
fn store_and_load_register_blocks_move_the_address_register() {
    // Fx55 stores V0..V2 at I and moves I past the block.
    let (mut cpu, mut memory) = boot(&[0xF2, 0x55]);
    memory.registers.set(0, 10);
    memory.registers.set(1, 20);
    memory.registers.set(2, 30);
    memory.registers.image = 0x400;
    step(&mut cpu, &mut memory);
    assert_eq!(memory.ram[0x400], 10);
    assert_eq!(memory.ram[0x401], 20);
    assert_eq!(memory.ram[0x402], 30);
    assert_eq!(memory.registers.image, 0x403);

    // Fx65 loads them back.
    let (mut cpu, mut memory) = boot(&[0xF1, 0x65]);
    memory.ram[0x500] = 7;
    memory.ram[0x501] = 8;
    memory.registers.image = 0x500;
    step(&mut cpu, &mut memory);
    assert_eq!(memory.registers.get(0), 7);
    assert_eq!(memory.registers.get(1), 8);
    assert_eq!(memory.registers.get(2), 0);
    assert_eq!(memory.registers.image, 0x502);
}

#[test]
fn jump_and_jump_offset() {
    // 1nnn, then the cycle advance lands two past the target.
    let (mut cpu, mut memory) = boot(&[0x13, 0x10]);
    step(&mut cpu, &mut memory);
    assert_eq!(cpu.program_counter, 0x312);

    // Bnnn adds V0.
    let (mut cpu, mut memory) = boot(&[0xB3, 0x10]);
    memory.registers.set(0, 5);
    step(&mut cpu, &mut memory);
    assert_eq!(cpu.program_counter, 0x317);
}

#[test]
fn call_pushes_and_return_pops() {
    // 2nnn at 0x200 calls 0x20A; execution resumes at 0x20C, where 00EE
    // returns to just past the call.
    let mut program = vec![0x22, 0x0A];
    program.resize(12, 0);
    program.extend_from_slice(&[0x00, 0xEE]);
    let (mut cpu, mut memory) = boot(&program);
    step(&mut cpu, &mut memory);
    assert_eq!(cpu.program_counter, 0x20C);
    assert_eq!(memory.stack.addresses, vec![0x200]);
    step(&mut cpu, &mut memory);
    assert_eq!(cpu.program_counter, 0x202);
    assert!(memory.stack.addresses.is_empty());
}

#[test]
fn load_and_add_immediates_wrap() {
    // 6xkk then 7xkk twice; the add wraps without touching the flag.
    let (mut cpu, mut memory) = boot(&[0x60, 0xF0, 0x70, 0x20, 0x70, 0x01]);
    step(&mut cpu, &mut memory);
    assert_eq!(memory.registers.get(0), 0xF0);
    step(&mut cpu, &mut memory);
    assert_eq!(memory.registers.get(0), 0x10);
    assert_eq!(memory.registers.get(0xF), 0);
    step(&mut cpu, &mut memory);
    assert_eq!(memory.registers.get(0), 0x11);
}

#[test]
fn set_i_and_font_sprite_address() {
    // Annn, then Fx29 points I at five bytes per symbol.
    let (mut cpu, mut memory) = boot(&[0xA1, 0x23, 0xF0, 0x29]);
    step(&mut cpu, &mut memory);
    assert_eq!(memory.registers.image, 0x123);
    memory.registers.set(0, 0xA);
    step(&mut cpu, &mut memory);
    assert_eq!(memory.registers.image, 50);
}

#[test]
fn add_to_i_checks_the_address_range() {
    let (mut cpu, mut memory) = boot(&[0xF0, 0x1E]);
    memory.registers.image = 4000;
    memory.registers.set(0, 90);
    step(&mut cpu, &mut memory);
    assert_eq!(memory.registers.image, 4090);

    let (mut cpu, mut memory) = boot(&[0xF0, 0x1E]);
    memory.registers.image = 4000;
    memory.registers.set(0, 200);
    let f = fault_of(cpu.execute(&mut memory, 0));
    assert_eq!(f, Fault::AddressOverflow(4200));
}

#[test]
fn memory_reaches_past_the_end_are_fatal() {
    let (mut cpu, mut memory) = boot(&[0xF0, 0x33]);
    memory.registers.image = 4094;
    let f = fault_of(cpu.execute(&mut memory, 0));
    assert_eq!(f, Fault::OutOfBounds(4096));

    let (mut cpu, mut memory) = boot(&[0xF5, 0x55]);
    memory.registers.image = 4091;
    let f = fault_of(cpu.execute(&mut memory, 0));
    assert_eq!(f, Fault::OutOfBounds(4096));

    let (mut cpu, mut memory) = boot(&[0xD0, 0x02]);
    memory.registers.image = 4095;
    let f = fault_of(cpu.execute(&mut memory, 0));
    assert_eq!(f, Fault::OutOfBounds(4096));
}

#[test]
fn unknown_patterns_are_illegal_instructions() {
    let (mut cpu, mut memory) = boot(&[0x80, 0x09]);
    assert_eq!(fault_of(cpu.execute(&mut memory, 0)), Fault::IllegalInstruction);

    let (mut cpu, mut memory) = boot(&[0xE0, 0x55]);
    assert_eq!(fault_of(cpu.execute(&mut memory, 0)), Fault::IllegalInstruction);

    let (mut cpu, mut memory) = boot(&[0xF0, 0x99]);
    assert_eq!(fault_of(cpu.execute(&mut memory, 0)), Fault::IllegalInstruction);
}

#[test]
fn system_calls_are_ignored() {
    let (mut cpu, mut memory) = boot(&[0x01, 0x23]);
    step(&mut cpu, &mut memory);
    assert_eq!(cpu.program_counter, 0x202);
    assert_eq!(memory.registers.get(0), 0);
}

#[test]
fn random_byte_is_masked() {
    // Cxkk with a zero mask pins the register to zero.
    let (mut cpu, mut memory) = boot(&[0xC0, 0x00, 0xC1, 0x0F]);
    memory.registers.set(0, 0xAA);
    step(&mut cpu, &mut memory);
    assert_eq!(memory.registers.get(0), 0);
    step(&mut cpu, &mut memory);
    assert!(memory.registers.get(1) <= 0x0F);
}

#[test]
fn key_skips_consult_the_bitmask() {
    // Ex9E skips when the key in Vx is down.
    let (mut cpu, mut memory) = boot(&[0xE0, 0x9E]);
    memory.registers.set(0, 0x5);
    memory.key_state.set(Key::Five);
    step(&mut cpu, &mut memory);
    assert_eq!(cpu.program_counter, 0x204);

    // ExA1 skips when it is up.
    let (mut cpu, mut memory) = boot(&[0xE0, 0xA1]);
    memory.registers.set(0, 0x5);
    step(&mut cpu, &mut memory);
    assert_eq!(cpu.program_counter, 0x204);

    // A register value outside the keypad is fatal.
    let (mut cpu, mut memory) = boot(&[0xE0, 0x9E]);
    memory.registers.set(0, 20);
    assert_eq!(fault_of(cpu.execute(&mut memory, 0)), Fault::InvalidKey);
}

#[test]
fn wait_for_key_defers_the_register_write() {
    let (mut cpu, mut memory) = boot(&[0xF5, 0x0A]);
    let out = step(&mut cpu, &mut memory);
    assert_eq!(cpu.program_counter, 0x202);
    let inst = match out.waiting_for_key {
        Some(inst) => inst,
        None => panic!("expected a key wait"),
    };
    cpu.wait_for_key(inst, &mut memory, 0xA);
    assert_eq!(memory.registers.get(5), 0xA);
}

#[test]
fn delay_timer_round_trips_through_opcodes() {
    // Fx15 sets the delay timer, Fx07 reads it back.
    let (mut cpu, mut memory) = boot(&[0xF0, 0x15, 0xF1, 0x07]);
    memory.registers.set(0, 9);
    step(&mut cpu, &mut memory);
    assert_eq!(cpu.timers.delay(), 9);
    step(&mut cpu, &mut memory);
    assert_eq!(memory.registers.get(1), 9);
}

#[test]
fn sound_timer_edges_drive_the_beep() {
    // Fx18 with a non-zero value starts the tone; the tick that brings
    // the timer to zero stops it.
    let (mut cpu, mut memory) = boot(&[0xF0, 0x18, 0x00, 0x00]);
    memory.registers.set(0, 3);
    let out = step(&mut cpu, &mut memory);
    assert!(out.start_beep);
    assert!(!out.stop_beep);
    assert_eq!(cpu.timers.sound(), 3);

    let three_frames = 3 * 16_666_667u128;
    let out = match cpu.execute(&mut memory, three_frames) {
        Ok(out) => out,
        Err(_) => panic!("unexpected fault"),
    };
    assert!(!out.start_beep);
    assert!(out.stop_beep);
    assert_eq!(cpu.timers.sound(), 0);
}
