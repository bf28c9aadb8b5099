use chip8::cpu::{Chip8CPU, CpuError};
use chip8::frame::{advance_timers_by, run_frame, run_instructions, RunReport};
use chip8::raster::OFF_COLOR;
use chip8::timing::{Due, Pacer, MICROS_PER_SECOND, TIMER_HZ};

fn blank_screen() -> Box<[u32; 524288]> {
    vec![OFF_COLOR; 524288].into_boxed_slice().try_into().unwrap()
}

fn clean() -> RunReport {
    RunReport { skipped: Vec::new(), fault: None }
}

fn boot(program: &[u8]) -> Chip8CPU {
    let mut cpu = Chip8CPU::new();
    assert_eq!(cpu.load_rom(&program.to_vec()), Ok(()));
    cpu
}

#[test]
fn timing_constants() {
    assert_eq!(TIMER_HZ, 60);
    assert_eq!(MICROS_PER_SECOND, 1_000_000);
}

#[test]
fn one_second_at_600_hz_is_ten_instructions_per_tick() {
    let mut pacer = Pacer::new(600);
    let due = pacer.advance(1_000_000);
    assert_eq!(due, Due { instructions: 600, timer_ticks: 60 });
    assert_eq!(due.instructions / due.timer_ticks, 10);
}

#[test]
fn one_timer_period_at_600_hz() {
    let mut pacer = Pacer::new(600);
    let mut instructions = 0;
    let mut ticks = 0;
    // Three frames of a third of 1/60 s and a bit: 16667 microseconds in all.
    for elapsed in [5556u32, 5556, 5555] {
        let due = pacer.advance(elapsed);
        instructions += due.instructions;
        ticks += due.timer_ticks;
    }
    assert_eq!((instructions, ticks), (10, 1));
}

#[test]
fn fractions_carry_over_between_frames() {
    let mut pacer = Pacer::new(600);
    assert_eq!(pacer.advance(1_000), Due { instructions: 0, timer_ticks: 0 });
    assert_eq!(pacer.advance(1_000), Due { instructions: 1, timer_ticks: 0 });
    let mut instructions = 1;
    let mut ticks = 0;
    for _ in 0..998 {
        let due = pacer.advance(1_000);
        instructions += due.instructions;
        ticks += due.timer_ticks;
    }
    assert_eq!((instructions, ticks), (600, 60));
}

#[test]
fn timer_rate_does_not_depend_on_clock_speed() {
    let mut slow = Pacer::new(60);
    let mut fast = Pacer::new(1_000_000);
    let mut slow_ticks = 0;
    let mut fast_ticks = 0;
    let mut fast_instructions = 0;
    for step in 0..1000u32 {
        if step == 500 {
            fast.set_clock(2_000_000);
            assert_eq!(fast.clock(), 2_000_000);
        }
        let a = slow.advance(2_500 + step);
        let b = fast.advance(2_500 + step);
        assert_eq!(a.timer_ticks, b.timer_ticks);
        slow_ticks += a.timer_ticks;
        fast_ticks += b.timer_ticks;
        fast_instructions += b.instructions;
    }
    let elapsed: u64 = (0..1000u64).map(|s| 2_500 + s).sum();
    assert_eq!(slow_ticks, elapsed * 60 / 1_000_000);
    assert_eq!(fast_ticks, slow_ticks);
    let first_half: u64 = (0..500u64).map(|s| 2_500 + s).sum();
    assert_eq!(fast_instructions, first_half + 2 * (elapsed - first_half));
}

#[test]
fn largest_clock_and_interval_do_not_overflow() {
    let mut pacer = Pacer::new(u32::MAX);
    let due = pacer.advance(u32::MAX);
    let product = u32::MAX as u64 * u32::MAX as u64;
    assert_eq!(due.instructions, product / 1_000_000);
    assert_eq!(due.timer_ticks, u32::MAX as u64 * 60 / 1_000_000);
    let next = pacer.advance(1);
    assert_eq!(next.instructions, (product % 1_000_000 + u32::MAX as u64) / 1_000_000);
}

#[test]
fn zero_clock_runs_no_instructions() {
    let mut pacer = Pacer::new(0);
    assert_eq!(pacer.advance(5_000_000), Due { instructions: 0, timer_ticks: 300 });
}

#[test]
fn run_instructions_executes_the_count_given() {
    let mut cpu = boot(&[0x70, 0x01, 0x12, 0x00]);
    let mut screen = blank_screen();
    assert_eq!(run_instructions(&mut cpu, &mut screen, 0), clean());
    assert_eq!(cpu.pc(), 0x200);
    assert_eq!(run_instructions(&mut cpu, &mut screen, 9), clean());
    assert_eq!(cpu.register(0), 5);
    assert_eq!(cpu.pc(), 0x202);
}

#[test]
fn run_instructions_stops_at_first_fault() {
    let mut cpu = boot(&[0x60, 0x07, 0x00, 0xEE, 0x60, 0x09]);
    let mut screen = blank_screen();
    assert_eq!(
        run_instructions(&mut cpu, &mut screen, 5),
        RunReport { skipped: Vec::new(), fault: Some(CpuError::StackUnderflow) }
    );
    assert_eq!(cpu.register(0), 7);
    assert_eq!(cpu.pc(), 0x202);
}

#[test]
fn advance_timers_by_saturates_at_zero() {
    let mut cpu = boot(&[0x60, 0x05, 0xF0, 0x15, 0x60, 0xC8, 0xF0, 0x18]);
    let mut screen = blank_screen();
    assert_eq!(run_instructions(&mut cpu, &mut screen, 4), clean());
    advance_timers_by(&mut cpu, 0);
    assert_eq!((cpu.delay_timer(), cpu.sound_timer()), (5, 200));
    advance_timers_by(&mut cpu, 3);
    assert_eq!((cpu.delay_timer(), cpu.sound_timer()), (2, 197));
    advance_timers_by(&mut cpu, 100);
    assert_eq!((cpu.delay_timer(), cpu.sound_timer()), (0, 97));
    advance_timers_by(&mut cpu, u64::MAX);
    assert_eq!((cpu.delay_timer(), cpu.sound_timer()), (0, 0));
}

#[test]
fn frame_runs_due_instructions_and_timer_ticks() {
    // Sets the delay timer to 100, then counts instructions in V1 for ever.
    let mut cpu = boot(&[0x60, 0x64, 0xF0, 0x15, 0x71, 0x01, 0x12, 0x04]);
    let mut pacer = Pacer::new(600);
    let mut screen = blank_screen();
    assert_eq!(run_instructions(&mut cpu, &mut screen, 2), clean());
    assert_eq!(run_frame(&mut cpu, &mut pacer, &mut screen, 500_000), clean());
    assert_eq!(cpu.delay_timer(), 70);
    assert_eq!(cpu.register(1), 150);
    pacer.set_clock(1200);
    assert_eq!(run_frame(&mut cpu, &mut pacer, &mut screen, 500_000), clean());
    assert_eq!(cpu.delay_timer(), 40);
    assert_eq!(cpu.register(1), 150 + 44);
}

#[test]
fn frame_reports_fault() {
    let mut cpu = boot(&[0x00, 0xEE]);
    let mut pacer = Pacer::new(60);
    let mut screen = blank_screen();
    assert_eq!(run_frame(&mut cpu, &mut pacer, &mut screen, 10_000), clean());
    assert_eq!(
        run_frame(&mut cpu, &mut pacer, &mut screen, 10_000),
        RunReport { skipped: Vec::new(), fault: Some(CpuError::StackUnderflow) }
    );
    assert_eq!(cpu.pc(), 0x200);
}

#[test]
fn run_instructions_reports_unimplemented_words_in_order() {
    let mut cpu = boot(&[0x00, 0x00, 0x60, 0x01, 0xE0, 0x9E, 0xF0, 0x0A, 0x12, 0x08]);
    let mut screen = blank_screen();
    assert_eq!(
        run_instructions(&mut cpu, &mut screen, 2),
        RunReport { skipped: vec![0x0000], fault: None }
    );
    assert_eq!(
        run_instructions(&mut cpu, &mut screen, 10),
        RunReport { skipped: vec![0xE09E, 0xF00A], fault: None }
    );
    assert_eq!(cpu.register(0), 1);
}

#[test]
fn run_instructions_keeps_words_skipped_before_a_fault() {
    let mut cpu = boot(&[0xC1, 0x23, 0x60, 0x01, 0x51, 0x21, 0x00, 0xEE, 0xFF, 0xFF]);
    let mut screen = blank_screen();
    assert_eq!(
        run_instructions(&mut cpu, &mut screen, 9),
        RunReport { skipped: vec![0xC123, 0x5121], fault: Some(CpuError::StackUnderflow) }
    );
    assert_eq!(cpu.pc(), 0x206);
    assert_eq!(cpu.register(0), 1);
}

#[test]
fn frame_reports_unimplemented_words() {
    let mut cpu = boot(&[0xE1, 0xA1, 0x12, 0x00]);
    let mut pacer = Pacer::new(4);
    let mut screen = blank_screen();
    assert_eq!(
        run_frame(&mut cpu, &mut pacer, &mut screen, 1_000_000),
        RunReport { skipped: vec![0xE1A1, 0xE1A1], fault: None }
    );
    assert_eq!(cpu.pc(), 0x200);
}
