use chipeite::cpu::timer::Timers;
use chipeite::fault::Fault;
use chipeite::memory::framebuffer::{iterate_u8, FrameBuffer};
use chipeite::memory::stack::Stack;
use chipeite::memory::Memory;

#[test]
fn timer_saturates_and_reports_it_was_running() {
    // One second is sixty frames: a delay of five reaches zero, and the
    // report says it was running before the tick.
    let mut timers = Timers::new(0);
    timers.set_delay_timer(5);
    let report = match timers.count_down(1_000_000_020) {
        Some(report) => report,
        None => panic!("frames elapsed, a report is due"),
    };
    assert_eq!(report.count, 60);
    assert!(report.delay);
    assert!(!report.sound);
    assert_eq!(timers.delay(), 0);
    assert_eq!(timers.sound(), 0);
}

#[test]
fn timer_does_nothing_within_one_frame() {
    let mut timers = Timers::new(0);
    timers.set_delay_timer(5);
    assert!(timers.count_down(16_666_666).is_none());
    assert_eq!(timers.delay(), 5);
}

#[test]
fn timer_clamps_a_long_pause_instead_of_failing() {
    // A debugger pause of an hour is far more than 255 frames; the count
    // clamps and nothing crashes.
    let mut timers = Timers::new(0);
    timers.set_delay_timer(200);
    let report = match timers.count_down(3_600_000_000_000) {
        Some(report) => report,
        None => panic!("frames elapsed, a report is due"),
    };
    assert_eq!(report.count, 255);
    assert_eq!(timers.delay(), 0);
}

#[test]
fn timer_advances_by_whole_frames_only() {
    // Ninety million nanoseconds is five frames and change; the change
    // stays pending, so the next tick five frames later still fires.
    let mut timers = Timers::new(0);
    timers.set_delay_timer(11);
    let report = timers.count_down(90_000_000).expect("frames elapsed");
    assert_eq!(report.count, 5);
    assert_eq!(timers.delay(), 6);
    let report = timers.count_down(174_000_000).expect("frames elapsed");
    assert_eq!(report.count, 5);
    assert_eq!(timers.delay(), 1);
}

#[test]
fn stack_accepts_its_capacity_and_no_more() {
    let mut stack = Stack::new();
    for _ in 0..32 {
        assert_eq!(stack.call(0x234), Ok(()));
    }
    assert_eq!(stack.call(0x234), Err(Fault::StackOverflow));
}

#[test]
fn returning_on_an_empty_stack_is_fatal() {
    let mut stack = Stack::new();
    assert_eq!(stack.ret(), Err(Fault::StackUnderflow));
    stack.call(0x321).expect("room for one");
    assert_eq!(stack.ret(), Ok(0x321));
    assert_eq!(stack.ret(), Err(Fault::StackUnderflow));
}

#[test]
fn rom_is_copied_verbatim_at_the_load_offset() {
    let mut memory = Memory::new();
    assert!(memory.load_rom(&[1, 2, 3]));
    assert_eq!(memory.ram[0x1FF], 0);
    assert_eq!(memory.ram[0x200], 1);
    assert_eq!(memory.ram[0x201], 2);
    assert_eq!(memory.ram[0x202], 3);
    assert_eq!(memory.ram[0x203], 0);
}

#[test]
fn an_oversized_rom_is_rejected_unchanged() {
    let mut memory = Memory::new();
    let rom = vec![9u8; 4096 - 0x200 + 1];
    assert!(!memory.load_rom(&rom));
    assert!(memory.ram.iter().all(|b| *b == 0));
    let rom = vec![9u8; 4096 - 0x200];
    assert!(memory.load_rom(&rom));
    assert_eq!(memory.ram[4095], 9);
}

#[test]
fn fetch_reads_big_endian_words() {
    let mut memory = Memory::new();
    assert!(memory.load_rom(&[0xAB, 0xCD]));
    assert_eq!(memory.fetch(0x200).four(), 0xABCD);
}

#[test]
fn sprite_rows_unpack_most_significant_bit_first() {
    let bits = iterate_u8(0b1010_0000);
    assert_eq!(bits, vec![true, false, true, false, false, false, false, false]);
    assert_eq!(iterate_u8(0xFF), vec![true; 8]);
    assert_eq!(iterate_u8(0x00), vec![false; 8]);
}

#[test]
fn framebuffer_write_reports_collisions_and_reset_clears() {
    let mut fb = FrameBuffer::new();
    assert!(!fb.write(0, 0, &[0xFF]));
    assert!(fb.write(4, 0, &[0xF0]));
    // The overlap at columns 4..7 went dark again; 8..11 lit up.
    assert!(fb.grid[0] && fb.grid[3]);
    assert!(!fb.grid[4] && !fb.grid[7]);
    fb.reset();
    assert!(fb.grid.iter().all(|p| !p));
}

#[test]
fn framebuffer_iteration_is_row_major_and_restartable() {
    let mut fb = FrameBuffer::new();
    fb.write(1, 0, &[0b1000_0000]);
    for _ in 0..2 {
        let pixels = fb.iter();
        assert_eq!(pixels.len(), 64 * 32);
        assert_eq!(pixels[1].x, 1);
        assert_eq!(pixels[1].y, 0);
        assert!(pixels[1].state);
        assert!(!pixels[0].state);
        assert_eq!(pixels[64 + 2].x, 2);
        assert_eq!(pixels[64 + 2].y, 1);
    }
}

#[test]
fn a_tall_sprite_descends_row_by_row() {
    let mut fb = FrameBuffer::new();
    fb.write(0, 0, &[0b1000_0000, 0b0100_0000, 0b0010_0000]);
    assert!(fb.grid[0]);
    assert!(fb.grid[64 + 1]);
    assert!(fb.grid[128 + 2]);
    assert!(!fb.grid[1] && !fb.grid[64] && !fb.grid[128]);
}
