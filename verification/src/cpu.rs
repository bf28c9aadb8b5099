//! The processor: memory, registers, call stack, timers, and the execution of
//! one instruction at a time.
//!
//! Faults are fatal and atomic: an instruction that would leave the call
//! stack or read or write outside memory is not executed at all, and `tick`
//! returns the error with the processor and the screen unchanged.

use crate::decode::{decode, spec_decode, Instruction};
use crate::raster::{
    blocks_uniform, clear_screen, draw_sprite, lemma_clear_uniform, lemma_draw_keeps_blocks,
    spec_clear, spec_collides, spec_draw,
};
use vstd::prelude::*;

verus! {

/// Number of memory cells.
pub const MEMORY_SIZE: usize = 4096;

/// Address at which programs are loaded and execution starts.
pub const PROGRAM_START: usize = 0x200;

/// Address at which the font glyphs are loaded.
pub const FONT_START: usize = 0x50;

/// Depth of the call stack.
pub const STACK_DEPTH: usize = 16;

/// Why a load or an instruction was refused.
#[derive(Clone, Copy, Debug, PartialEq, Eq, Structural)]
pub enum CpuError {
    /// The bytes to load do not fit in the region they are meant for.
    OutOfBounds,
    /// An instruction fetch or a memory operand lies outside memory.
    InvalidAddress,
    /// A call with sixteen return addresses already saved.
    StackOverflow,
    /// A return with no return address saved.
    StackUnderflow,
}

/// What an executed instruction was.
#[derive(Clone, Copy, Debug, PartialEq, Eq, Structural)]
pub enum TickEvent {
    /// An instruction of the implemented set was carried out.
    Executed,
    /// The word is not an implemented instruction; it was skipped.
    Unimplemented { op: u16 },
}

/// The processor as a mathematical value.
#[verifier::ext_equal]
pub struct CpuState {
    pub ram: Seq<u8>,
    pub regs: Seq<u8>,
    pub stack: Seq<u16>,
    pub pc: u16,
    pub i: u16,
    /// Index of the top of the stack, or -1 when the stack is empty.
    pub sp: int,
    pub dt: u8,
    pub st: u8,
}

impl CpuState {
    pub open spec fn valid(self) -> bool {
        &&& self.ram.len() == 4096
        &&& self.regs.len() == 16
        &&& self.stack.len() == 16
        &&& -1 <= self.sp <= 15
    }
}

/// The state of a processor that has just been created.
pub open spec fn initial_state() -> CpuState {
    CpuState {
        ram: Seq::new(4096, |a: int| 0u8),
        regs: Seq::new(16, |r: int| 0u8),
        stack: Seq::new(16, |d: int| 0u16),
        pc: 0x200,
        i: 0,
        sp: -1,
        dt: 0,
        st: 0,
    }
}

/// Memory `ram` with `bytes` copied to address `at` and onward.
pub open spec fn loaded(ram: Seq<u8>, bytes: Seq<u8>, at: int) -> Seq<u8> {
    Seq::new(
        ram.len(),
        |a: int|
            if at <= a < at + bytes.len() {
                bytes[a - at]
            } else {
                ram[a]
            },
    )
}

/// Whether the two bytes of the next instruction do not both lie in memory.
pub open spec fn fetch_fails(s: CpuState) -> bool {
    s.pc + 1 >= 4096
}

/// The instruction word at the program counter, high byte first.
pub open spec fn fetched(s: CpuState) -> u16 {
    (s.ram[s.pc as int] * 256 + s.ram[s.pc + 1]) as u16
}

/// The state with the program counter moved past the fetched instruction.
pub open spec fn advanced(s: CpuState) -> CpuState {
    CpuState { pc: (s.pc + 2) as u16, ..s }
}

/// The state with the program counter moved past one more instruction.
pub open spec fn skipped(s: CpuState, cond: bool) -> CpuState {
    if cond {
        CpuState { pc: (s.pc + 2) as u16, ..s }
    } else {
        s
    }
}

/// A flag value: 1 for true, 0 for false.
pub open spec fn flag(b: bool) -> u8 {
    if b {
        1
    } else {
        0
    }
}

/// The fault that instruction `ins` raises in state `s`, if any.
pub open spec fn fault(s: CpuState, ins: Instruction) -> Option<CpuError> {
    match ins {
        Instruction::Return => if s.sp < 0 {
            Some(CpuError::StackUnderflow)
        } else {
            None
        },
        Instruction::Call { .. } => if s.sp >= 15 {
            Some(CpuError::StackOverflow)
        } else {
            None
        },
        Instruction::Draw { n, .. } => if n > 0 && s.i + n > 4096 {
            Some(CpuError::InvalidAddress)
        } else {
            None
        },
        Instruction::StoreBcd { .. } => if s.i + 3 > 4096 {
            Some(CpuError::InvalidAddress)
        } else {
            None
        },
        Instruction::StoreRegs { x } | Instruction::LoadRegs { x } => if s.i + x + 1 > 4096 {
            Some(CpuError::InvalidAddress)
        } else {
            None
        },
        _ => None,
    }
}

/// The state after instruction `ins` is carried out in state `s`, whose
/// program counter already points past the instruction. `collided` is the
/// outcome of the draw, for a draw instruction.
///
/// Where an instruction writes both a register and the flag register VF, the
/// order of the two writes decides what VF holds when the register is VF
/// itself:
/// - the addition writes the sum first and the carry last, so VF ends as the
///   carry;
/// - the subtractions take both operands, write the flag, then write the
///   difference, so VF ends as the difference;
/// - the shifts write the flag, then shift the register in place, so VF ends
///   as the flag shifted: 0 after a right shift, twice the flag after a left
///   shift.
pub open spec fn apply(s: CpuState, ins: Instruction, collided: bool) -> CpuState {
    match ins {
        Instruction::ClearScreen => s,
        Instruction::Unknown { .. } => s,
        Instruction::Return => CpuState { pc: s.stack[s.sp], sp: s.sp - 1, ..s },
        Instruction::Jump { addr } => CpuState { pc: addr, ..s },
        Instruction::Call { addr } => CpuState {
            pc: addr,
            sp: s.sp + 1,
            stack: s.stack.update(s.sp + 1, s.pc),
            ..s
        },
        Instruction::SkipEqByte { x, kk } => skipped(s, s.regs[x as int] == kk),
        Instruction::SkipNeByte { x, kk } => skipped(s, s.regs[x as int] != kk),
        Instruction::SkipEqReg { x, y } => skipped(s, s.regs[x as int] == s.regs[y as int]),
        Instruction::SkipNeReg { x, y } => skipped(s, s.regs[x as int] != s.regs[y as int]),
        Instruction::LoadByte { x, kk } => CpuState { regs: s.regs.update(x as int, kk), ..s },
        Instruction::AddByte { x, kk } => CpuState {
            regs: s.regs.update(x as int, ((s.regs[x as int] + kk) % 256) as u8),
            ..s
        },
        Instruction::Move { x, y } => CpuState {
            regs: s.regs.update(x as int, s.regs[y as int]),
            ..s
        },
        Instruction::Or { x, y } => CpuState {
            regs: s.regs.update(x as int, s.regs[x as int] | s.regs[y as int]),
            ..s
        },
        Instruction::And { x, y } => CpuState {
            regs: s.regs.update(x as int, s.regs[x as int] & s.regs[y as int]),
            ..s
        },
        Instruction::Xor { x, y } => CpuState {
            regs: s.regs.update(x as int, s.regs[x as int] ^ s.regs[y as int]),
            ..s
        },
        Instruction::AddReg { x, y } => {
            let sum = s.regs[x as int] + s.regs[y as int];
            CpuState {
                regs: s.regs.update(x as int, (sum % 256) as u8).update(15, flag(sum > 255)),
                ..s
            }
        },
        Instruction::SubReg { x, y } => {
            let vx = s.regs[x as int];
            let vy = s.regs[y as int];
            CpuState {
                regs: s.regs.update(15, flag(vx > vy)).update(x as int, ((vx - vy) % 256) as u8),
                ..s
            }
        },
        Instruction::SubFrom { x, y } => {
            let vx = s.regs[x as int];
            let vy = s.regs[y as int];
            CpuState {
                regs: s.regs.update(15, flag(vy > vx)).update(x as int, ((vy - vx) % 256) as u8),
                ..s
            }
        },
        Instruction::ShiftRight { x } => {
            let flagged = s.regs.update(15, (s.regs[x as int] % 2) as u8);
            CpuState { regs: flagged.update(x as int, (flagged[x as int] / 2) as u8), ..s }
        },
        Instruction::ShiftLeft { x } => {
            let flagged = s.regs.update(15, (s.regs[x as int] / 128) as u8);
            CpuState {
                regs: flagged.update(x as int, ((flagged[x as int] * 2) % 256) as u8),
                ..s
            }
        },
        Instruction::LoadIndex { addr } => CpuState { i: addr, ..s },
        Instruction::JumpOffset { addr } => CpuState { pc: (addr + s.regs[0]) as u16, ..s },
        Instruction::Draw { .. } => CpuState { regs: s.regs.update(15, flag(collided)), ..s },
        Instruction::ReadDelay { x } => CpuState { regs: s.regs.update(x as int, s.dt), ..s },
        Instruction::SetDelay { x } => CpuState { dt: s.regs[x as int], ..s },
        Instruction::SetSound { x } => CpuState { st: s.regs[x as int], ..s },
        Instruction::AddIndex { x } => CpuState {
            i: ((s.i + s.regs[x as int]) % 65536) as u16,
            ..s
        },
        Instruction::StoreBcd { x } => {
            let vx = s.regs[x as int];
            CpuState {
                ram: s.ram.update(s.i as int, (vx / 100) as u8).update(
                    s.i + 1,
                    ((vx / 10) % 10) as u8,
                ).update(s.i + 2, (vx % 10) as u8),
                ..s
            }
        },
        Instruction::StoreRegs { x } => CpuState {
            ram: loaded(s.ram, s.regs.subrange(0, x + 1), s.i as int),
            ..s
        },
        Instruction::LoadRegs { x } => CpuState {
            regs: loaded(s.regs, s.ram.subrange(s.i as int, s.i + x + 1), 0),
            ..s
        },
    }
}

/// The sprite that a draw instruction reads in state `s`: `n` bytes from the
/// index register on.
pub open spec fn sprite_of(s: CpuState, n: u8) -> Seq<u8> {
    if n == 0 {
        Seq::empty()
    } else {
        s.ram.subrange(s.i as int, s.i + n)
    }
}

/// The error with which one step in state `s` ends, if it does.
pub open spec fn step_error(s: CpuState) -> Option<CpuError> {
    if fetch_fails(s) {
        Some(CpuError::InvalidAddress)
    } else {
        fault(advanced(s), spec_decode(fetched(s)))
    }
}

/// Whether the draw instruction `ins` in state `s` turns a lit cell off.
pub open spec fn step_collides(s: CpuState, ins: Instruction, screen: Seq<u32>) -> bool {
    match ins {
        Instruction::Draw { x, y, n } => spec_collides(
            screen,
            sprite_of(s, n),
            s.regs[x as int] as int,
            s.regs[y as int] as int,
        ),
        _ => false,
    }
}

/// The processor after one successful step in state `s` against `screen`.
pub open spec fn step_cpu(s: CpuState, screen: Seq<u32>) -> CpuState {
    let ins = spec_decode(fetched(s));
    apply(advanced(s), ins, step_collides(s, ins, screen))
}

/// The screen after one successful step in state `s`.
pub open spec fn step_screen(s: CpuState, screen: Seq<u32>) -> Seq<u32> {
    match spec_decode(fetched(s)) {
        Instruction::ClearScreen => spec_clear(screen),
        Instruction::Draw { x, y, n } => spec_draw(
            screen,
            sprite_of(s, n),
            s.regs[x as int] as int,
            s.regs[y as int] as int,
        ),
        _ => screen,
    }
}

/// What one successful step in state `s` reports.
pub open spec fn step_event(s: CpuState) -> TickEvent {
    match spec_decode(fetched(s)) {
        Instruction::Unknown { op } => TickEvent::Unimplemented { op },
        _ => TickEvent::Executed,
    }
}

/// The timers after one 60 Hz tick: each counts down to zero and stays there.
pub open spec fn timers_advanced(s: CpuState) -> CpuState {
    CpuState {
        dt: if s.dt > 0 {
            (s.dt - 1) as u8
        } else {
            0
        },
        st: if s.st > 0 {
            (s.st - 1) as u8
        } else {
            0
        },
        ..s
    }
}

/// Copies `bytes` into `ram` from address `at` on.
fn copy_into(ram: &mut [u8; 4096], bytes: &Vec<u8>, at: usize)
    requires
        at + bytes.len() <= 4096,
    ensures
        final(ram)@ == loaded(old(ram)@, bytes@, at as int),
{
    let mut k: usize = 0;
    while k < bytes.len()
        invariant
            k <= bytes.len(),
            at + bytes.len() <= 4096,
            ram@ == loaded(old(ram)@, bytes@.take(k as int), at as int),
        decreases bytes.len() - k,
    {
        ram[at + k] = bytes[k];
        k = k + 1;
        assert(ram@ =~= loaded(old(ram)@, bytes@.take(k as int), at as int));
    }
    assert(bytes@.take(k as int) =~= bytes@);
}

/// Copies registers 0 to `last` into `ram` from address `at` on.
fn store_registers(ram: &mut [u8; 4096], regs: &[u8; 16], at: usize, last: usize)
    requires
        last < 16,
        at + last + 1 <= 4096,
    ensures
        final(ram)@ == loaded(old(ram)@, regs@.subrange(0, last + 1), at as int),
{
    let mut k: usize = 0;
    while k <= last
        invariant
            k <= last + 1,
            last < 16,
            at + last + 1 <= 4096,
            ram@ == loaded(old(ram)@, regs@.subrange(0, k as int), at as int),
        decreases last + 1 - k,
    {
        ram[at + k] = regs[k];
        k = k + 1;
        assert(ram@ =~= loaded(old(ram)@, regs@.subrange(0, k as int), at as int));
    }
}

/// Fills registers 0 to `last` from `ram`, address `at` on.
fn load_registers(regs: &mut [u8; 16], ram: &[u8; 4096], at: usize, last: usize)
    requires
        last < 16,
        at + last + 1 <= 4096,
    ensures
        final(regs)@ == loaded(old(regs)@, ram@.subrange(at as int, at + last + 1), 0),
{
    let mut k: usize = 0;
    while k <= last
        invariant
            k <= last + 1,
            last < 16,
            at + last + 1 <= 4096,
            regs@ == loaded(old(regs)@, ram@.subrange(at as int, at + k), 0),
        decreases last + 1 - k,
    {
        regs[k] = ram[at + k];
        k = k + 1;
        assert(regs@ =~= loaded(old(regs)@, ram@.subrange(at as int, at + k), 0));
    }
}

/// The lowest bit of a byte.
fn low_bit(v: u8) -> (r: u8)
    ensures
        r == v % 2,
{
    assert(v & 1 == v % 2) by (bit_vector);
    v & 1
}

/// The highest bit of a byte.
fn high_bit(v: u8) -> (r: u8)
    ensures
        r == v / 128,
{
    assert(v >> 7 == v / 128) by (bit_vector);
    v >> 7
}

/// A byte shifted right by one bit.
fn halved(v: u8) -> (r: u8)
    ensures
        r == v / 2,
{
    assert(v >> 1 == v / 2) by (bit_vector);
    v >> 1
}

/// A byte shifted left by one bit, the top bit dropped.
fn doubled(v: u8) -> (r: u8)
    ensures
        r == (v * 2) % 256,
{
    assert((v & 0x7F) << 1 == (v as u16 * 2) % 256) by (bit_vector);
    (v & 0x7F) << 1
}

/// Loading the same bytes at the same place twice is the same as loading them
/// once, and a load leaves every cell outside the loaded range as it was.
pub proof fn lemma_load_idempotent(ram: Seq<u8>, bytes: Seq<u8>, at: int)
    ensures
        loaded(loaded(ram, bytes, at), bytes, at) == loaded(ram, bytes, at),
        loaded(ram, bytes, at).len() == ram.len(),
        forall|a: int|
            0 <= a < ram.len() && !(at <= a < at + bytes.len()) ==> #[trigger] loaded(
                ram,
                bytes,
                at,
            )[a] == ram[a],
{
    assert(loaded(loaded(ram, bytes, at), bytes, at) =~= loaded(ram, bytes, at));
}

/// A return that follows a call restores the program counter and the stack
/// pointer that the call found, wherever the program counter went in
/// between.
pub proof fn lemma_call_then_return(s: CpuState, addr: u16, between: u16)
    requires
        s.valid(),
        s.sp < 15,
    ensures
        fault(s, Instruction::Call { addr }) is None,
        apply(s, Instruction::Call { addr }, false).pc == addr,
        apply(s, Instruction::Call { addr }, false).valid(),
        fault(apply(s, Instruction::Call { addr }, false), Instruction::Return) is None,
        apply(
            CpuState { pc: between, ..apply(s, Instruction::Call { addr }, false) },
            Instruction::Return,
            false,
        ).pc == s.pc,
        apply(
            CpuState { pc: between, ..apply(s, Instruction::Call { addr }, false) },
            Instruction::Return,
            false,
        ).sp == s.sp,
{
}

/// The three cells that the decimal store writes hold decimal digits, and
/// they spell the register's value: hundreds, tens, ones.
pub proof fn lemma_bcd_digits(s: CpuState, x: u8)
    requires
        s.valid(),
        x < 16,
        s.i + 3 <= 4096,
    ensures
        ({
            let after = apply(s, Instruction::StoreBcd { x }, false);
            &&& after.ram[s.i as int] < 10
            &&& after.ram[s.i + 1] < 10
            &&& after.ram[s.i + 2] < 10
            &&& after.ram[s.i as int] * 100 + after.ram[s.i + 1] * 10 + after.ram[s.i + 2]
                == s.regs[x as int]
        }),
{
}

/// Executing an instruction never counts a timer down: a step leaves the
/// delay timer alone unless it is the instruction that sets it, and likewise
/// the sound timer.
pub proof fn lemma_step_keeps_timers(s: CpuState, screen: Seq<u32>)
    requires
        s.valid(),
    ensures
        !(spec_decode(fetched(s)) is SetDelay) ==> step_cpu(s, screen).dt == s.dt,
        !(spec_decode(fetched(s)) is SetSound) ==> step_cpu(s, screen).st == s.st,
{
}

/// A step keeps the state valid.
pub proof fn lemma_step_valid(s: CpuState, screen: Seq<u32>)
    requires
        s.valid(),
        step_error(s) is None,
    ensures
        step_cpu(s, screen).valid(),
{
    crate::decode::lemma_decode_well_formed(fetched(s));
}

/// The sum of two bytes, reduced modulo 256.
fn wrapped_sum(a: u8, b: u8) -> (r: u8)
    ensures
        r == (a + b) % 256,
{
    a.wrapping_add(b)
}

/// The difference of two bytes, reduced modulo 256.
fn wrapped_difference(a: u8, b: u8) -> (r: u8)
    ensures
        r == (a - b) % 256,
{
    a.wrapping_sub(b)
}

/// A step writes whole blocks: a screen that shows cells only still does so
/// after any instruction.
pub proof fn lemma_step_keeps_blocks(s: CpuState, screen: Seq<u32>)
    requires
        blocks_uniform(screen),
    ensures
        blocks_uniform(step_screen(s, screen)),
{
    match spec_decode(fetched(s)) {
        Instruction::ClearScreen => {
            lemma_clear_uniform(screen, 0, 0);
        },
        Instruction::Draw { x, y, n } => {
            lemma_draw_keeps_blocks(
                screen,
                sprite_of(s, n),
                s.regs[x as int] as int,
                s.regs[y as int] as int,
            );
        },
        _ => {},
    }
}

pub struct Chip8CPU {
    ram: [u8; 4096],
    registers: [u8; 16],
    stack: [u16; 16],
    pc: u16,
    i: u16,
    sp: i16,
    dt: u8,
    st: u8,
}

impl View for Chip8CPU {
    type V = CpuState;

    closed spec fn view(&self) -> CpuState {
        CpuState {
            ram: self.ram@,
            regs: self.registers@,
            stack: self.stack@,
            pc: self.pc,
            i: self.i,
            sp: self.sp as int,
            dt: self.dt,
            st: self.st,
        }
    }
}

impl Chip8CPU {
    /// The stack pointer is -1 for the empty stack, or the index of its top.
    pub open spec fn wf(&self) -> bool {
        self@.valid()
    }

    /// A processor with zeroed memory and registers, an empty stack, and the
    /// program counter at the entry point.
    pub fn new() -> (cpu: Self)
        ensures
            cpu.wf(),
            cpu@ == initial_state(),
    {
        let cpu = Chip8CPU {
            ram: [0;4096],
            registers: [0;16],
            stack: [0;16],
            pc: 0x200,
            i: 0x0,
            sp: -1,
            dt: 0,
            st: 0,
        };
        assert(cpu@ =~= initial_state());
        cpu
    }

    /// Copies a program to address 0x200 and onward. Fails, changing nothing,
    /// when the program would reach past the end of memory.
    pub fn load_rom(&mut self, rom: &Vec<u8>) -> (r: Result<(), CpuError>)
        requires
            old(self).wf(),
        ensures
            final(self).wf(),
            match r {
                Ok(_) => 0x200 + rom@.len() <= 4096 && final(self)@ == (CpuState {
                    ram: loaded(old(self)@.ram, rom@, 0x200),
                    ..old(self)@
                }),
                Err(e) => e == CpuError::OutOfBounds && 0x200 + rom@.len() > 4096 && final(self)@
                    == old(self)@,
            },
    {
        if rom.len() > MEMORY_SIZE - PROGRAM_START {
            return Err(CpuError::OutOfBounds);
        }
        copy_into(&mut self.ram, rom, PROGRAM_START);
        Ok(())
    }

    /// Copies font glyphs to address 0x50 and onward. The glyphs may fill the
    /// region up to and including 0x1FF. Fails, changing nothing, when they
    /// would run into the program area at 0x200.
    pub fn load_font(&mut self, font: &Vec<u8>) -> (r: Result<(), CpuError>)
        requires
            old(self).wf(),
        ensures
            final(self).wf(),
            match r {
                Ok(_) => 0x50 + font@.len() <= 0x200 && final(self)@ == (CpuState {
                    ram: loaded(old(self)@.ram, font@, 0x50),
                    ..old(self)@
                }),
                Err(e) => e == CpuError::OutOfBounds && 0x50 + font@.len() > 0x200
                    && final(self)@ == old(self)@,
            },
    {
        if font.len() > PROGRAM_START - FONT_START {
            return Err(CpuError::OutOfBounds);
        }
        copy_into(&mut self.ram, font, FONT_START);
        Ok(())
    }

    /// One 60 Hz timer tick: the delay and sound timers each count down by
    /// one unless they are zero.
    pub fn advance_timers(&mut self)
        requires
            old(self).wf(),
        ensures
            final(self).wf(),
            final(self)@ == timers_advanced(old(self)@),
    {
        if self.dt > 0 {
            self.dt = self.dt - 1;
        }
        if self.st > 0 {
            self.st = self.st - 1;
        }
    }
    /// The program counter.
    pub fn pc(&self) -> (r: u16)
        ensures
            r == self@.pc,
    {
        self.pc
    }

    /// The index register.
    pub fn index(&self) -> (r: u16)
        ensures
            r == self@.i,
    {
        self.i
    }

    /// The stack pointer: -1 for the empty stack, else the index of its top.
    pub fn sp(&self) -> (r: i16)
        ensures
            r == self@.sp,
    {
        self.sp
    }

    /// The delay timer.
    pub fn delay_timer(&self) -> (r: u8)
        ensures
            r == self@.dt,
    {
        self.dt
    }

    /// The sound timer.
    pub fn sound_timer(&self) -> (r: u8)
        ensures
            r == self@.st,
    {
        self.st
    }

    /// General register `x`.
    pub fn register(&self, x: usize) -> (r: u8)
        requires
            x < 16,
        ensures
            r == self@.regs[x as int],
    {
        self.registers[x]
    }

    /// The memory cell at `addr`.
    pub fn memory(&self, addr: usize) -> (r: u8)
        requires
            addr < 4096,
        ensures
            r == self@.ram[addr as int],
    {
        self.ram[addr]
    }

    /// The return address saved at depth `d` of the call stack.
    pub fn saved_address(&self, d: usize) -> (r: u16)
        requires
            d < 16,
        ensures
            r == self@.stack[d as int],
    {
        self.stack[d]
    }

    /// The fault that `ins` raises in the current state, if any.
    fn check(&self, ins: Instruction) -> (r: Option<CpuError>)
        requires
            self.wf(),
        ensures
            r == fault(self@, ins),
    {
        match ins {
            Instruction::Return => if self.sp < 0 {
                Some(CpuError::StackUnderflow)
            } else {
                None
            },
            Instruction::Call { .. } => if self.sp + 1 >= STACK_DEPTH as i16 {
                Some(CpuError::StackOverflow)
            } else {
                None
            },
            Instruction::Draw { n, .. } => if n > 0 && self.i as usize + n as usize > MEMORY_SIZE {
                Some(CpuError::InvalidAddress)
            } else {
                None
            },
            Instruction::StoreBcd { .. } => if self.i as usize + 3 > MEMORY_SIZE {
                Some(CpuError::InvalidAddress)
            } else {
                None
            },
            Instruction::StoreRegs { x } | Instruction::LoadRegs { x } => if self.i as usize
                + x as usize + 1 > MEMORY_SIZE {
                Some(CpuError::InvalidAddress)
            } else {
                None
            },
            _ => None,
        }
    }

    /// Carries out an instruction that moves the program counter: jumps,
    /// calls, returns and skips. Returns false, changing nothing, for any
    /// other instruction.
    fn execute_flow(&mut self, ins: Instruction) -> (done: bool)
        requires
            old(self).wf(),
            ins.well_formed(),
            fault(old(self)@, ins) is None,
            old(self)@.pc <= 4096,
        ensures
            final(self).wf(),
            done ==> final(self)@ == apply(old(self)@, ins, false),
            !done ==> final(self)@ == old(self)@,
            done == (ins is Return || ins is Jump || ins is Call || ins is SkipEqByte
                || ins is SkipNeByte || ins is SkipEqReg || ins is SkipNeReg
                || ins is JumpOffset),
    {
        match ins {
            Instruction::Return => {
                self.pc = self.stack[self.sp as usize];
                self.sp = self.sp - 1;
            },
            Instruction::Jump { addr } => {
                self.pc = addr;
            },
            Instruction::Call { addr } => {
                self.sp = self.sp + 1;
                self.stack[self.sp as usize] = self.pc;
                self.pc = addr;
            },
            Instruction::SkipEqByte { x, kk } => {
                if self.registers[x as usize] == kk {
                    self.pc = self.pc + 2;
                }
            },
            Instruction::SkipNeByte { x, kk } => {
                if self.registers[x as usize] != kk {
                    self.pc = self.pc + 2;
                }
            },
            Instruction::SkipEqReg { x, y } => {
                if self.registers[x as usize] == self.registers[y as usize] {
                    self.pc = self.pc + 2;
                }
            },
            Instruction::SkipNeReg { x, y } => {
                if self.registers[x as usize] != self.registers[y as usize] {
                    self.pc = self.pc + 2;
                }
            },
            Instruction::JumpOffset { addr } => {
                self.pc = addr + self.registers[0] as u16;
            },
            _ => {
                return false;
            },
        }
        assert(self@ =~= apply(old(self)@, ins, false));
        true
    }

    /// Carries out a register load, move, immediate add or bitwise operation.
    /// Returns false, changing nothing, for any other instruction.
    fn execute_logic(&mut self, ins: Instruction) -> (done: bool)
        requires
            old(self).wf(),
            ins.well_formed(),
        ensures
            final(self).wf(),
            done ==> final(self)@ == apply(old(self)@, ins, false),
            !done ==> final(self)@ == old(self)@,
            done == (ins is LoadByte || ins is AddByte || ins is Move || ins is Or || ins is And
                || ins is Xor),
    {
        match ins {
            Instruction::LoadByte { x, kk } => {
                self.registers[x as usize] = kk;
            },
            Instruction::AddByte { x, kk } => {
                self.registers[x as usize] = wrapped_sum(self.registers[x as usize], kk);
            },
            Instruction::Move { x, y } => {
                self.registers[x as usize] = self.registers[y as usize];
            },
            Instruction::Or { x, y } => {
                self.registers[x as usize] = self.registers[x as usize] | self.registers[y as usize];
            },
            Instruction::And { x, y } => {
                self.registers[x as usize] = self.registers[x as usize] & self.registers[y as usize];
            },
            Instruction::Xor { x, y } => {
                self.registers[x as usize] = self.registers[x as usize] ^ self.registers[y as usize];
            },
            _ => {
                return false;
            },
        }
        assert(self@ =~= apply(old(self)@, ins, false));
        true
    }

    /// Carries out an addition, subtraction or shift that sets the flag
    /// register. Returns false, changing nothing, for any other instruction.
    fn execute_arithmetic(&mut self, ins: Instruction) -> (done: bool)
        requires
            old(self).wf(),
            ins.well_formed(),
        ensures
            final(self).wf(),
            done ==> final(self)@ == apply(old(self)@, ins, false),
            !done ==> final(self)@ == old(self)@,
            done == (ins is AddReg || ins is SubReg || ins is SubFrom || ins is ShiftRight
                || ins is ShiftLeft),
    {
        match ins {
            Instruction::AddReg { x, y } => {
                let vx: u8 = self.registers[x as usize];
                let vy: u8 = self.registers[y as usize];
                self.registers[x as usize] = wrapped_sum(vx, vy);
                self.registers[0xF] = if vx as u16 + vy as u16 > 255 {
                    1
                } else {
                    0
                };
            },
            Instruction::SubReg { x, y } => {
                let vx: u8 = self.registers[x as usize];
                let vy: u8 = self.registers[y as usize];
                self.registers[0xF] = if vx > vy {
                    1
                } else {
                    0
                };
                self.registers[x as usize] = wrapped_difference(vx, vy);
            },
            Instruction::SubFrom { x, y } => {
                let vx: u8 = self.registers[x as usize];
                let vy: u8 = self.registers[y as usize];
                self.registers[0xF] = if vy > vx {
                    1
                } else {
                    0
                };
                self.registers[x as usize] = wrapped_difference(vy, vx);
            },
            Instruction::ShiftRight { x } => {
                self.registers[0xF] = low_bit(self.registers[x as usize]);
                self.registers[x as usize] = halved(self.registers[x as usize]);
            },
            Instruction::ShiftLeft { x } => {
                self.registers[0xF] = high_bit(self.registers[x as usize]);
                self.registers[x as usize] = doubled(self.registers[x as usize]);
            },
            _ => {
                return false;
            },
        }
        assert(self@.regs =~= apply(old(self)@, ins, false).regs);
        assert(self@ =~= apply(old(self)@, ins, false));
        true
    }

    /// Carries out an instruction that works on the index register, the
    /// timers or memory. Returns false, changing nothing, for any other
    /// instruction.
    fn execute_data(&mut self, ins: Instruction) -> (done: bool)
        requires
            old(self).wf(),
            ins.well_formed(),
            fault(old(self)@, ins) is None,
        ensures
            final(self).wf(),
            done ==> final(self)@ == apply(old(self)@, ins, false),
            !done ==> final(self)@ == old(self)@,
            done == (ins is LoadIndex || ins is ReadDelay || ins is SetDelay || ins is SetSound
                || ins is AddIndex || ins is StoreBcd || ins is StoreRegs || ins is LoadRegs),
    {
        match ins {
            Instruction::LoadIndex { addr } => {
                self.i = addr;
            },
            Instruction::ReadDelay { x } => {
                self.registers[x as usize] = self.dt;
            },
            Instruction::SetDelay { x } => {
                self.dt = self.registers[x as usize];
            },
            Instruction::SetSound { x } => {
                self.st = self.registers[x as usize];
            },
            Instruction::AddIndex { x } => {
                self.i = self.i.wrapping_add(self.registers[x as usize] as u16);
            },
            Instruction::StoreBcd { x } => {
                let vx: u8 = self.registers[x as usize];
                let at: usize = self.i as usize;
                self.ram[at] = vx / 100;
                self.ram[at + 1] = (vx / 10) % 10;
                self.ram[at + 2] = vx % 10;
            },
            Instruction::StoreRegs { x } => {
                store_registers(&mut self.ram, &self.registers, self.i as usize, x as usize);
            },
            Instruction::LoadRegs { x } => {
                load_registers(&mut self.registers, &self.ram, self.i as usize, x as usize);
            },
            _ => {
                return false;
            },
        }
        assert(self@ =~= apply(old(self)@, ins, false));
        true
    }

    /// Fetches, decodes and executes one instruction against `screen`.
    ///
    /// The program counter moves past the instruction before it is carried
    /// out, so jumps and calls override that and skips add to it. A word that
    /// is no implemented instruction does nothing more and is reported as
    /// `Unimplemented`. On a fault nothing changes and the error is returned:
    /// `InvalidAddress` for an instruction or an operand outside memory,
    /// `StackOverflow` and `StackUnderflow` for a call or a return that the
    /// stack cannot take.
    pub fn tick(&mut self, screen: &mut [u32; 524288]) -> (r: Result<TickEvent, CpuError>)
        requires
            old(self).wf(),
        ensures
            final(self).wf(),
            match r {
                Ok(event) => {
                    &&& step_error(old(self)@) is None
                    &&& final(self)@ == step_cpu(old(self)@, old(screen)@)
                    &&& final(screen)@ == step_screen(old(self)@, old(screen)@)
                    &&& event == step_event(old(self)@)
                },
                Err(e) => {
                    &&& step_error(old(self)@) == Some(e)
                    &&& final(self)@ == old(self)@
                    &&& final(screen)@ == old(screen)@
                },
            },
    {
        if self.pc as usize + 1 >= MEMORY_SIZE {
            return Err(CpuError::InvalidAddress);
        }
        let hi: u8 = self.ram[self.pc as usize];
        let lo: u8 = self.ram[self.pc as usize + 1];
        let op: u16 = ((hi as u16) << 8) | (lo as u16);
        assert(op == hi * 256 + lo) by (bit_vector)
            requires
                op == ((hi as u16) << 8) | (lo as u16),
        ;
        let ins = decode(op);
        assert(fault(self@, ins) == fault(advanced(self@), ins));
        match self.check(ins) {
            Some(e) => {
                return Err(e);
            },
            None => {},
        }
        self.pc = self.pc + 2;
        assert(self@ =~= advanced(old(self)@));
        match ins {
            Instruction::ClearScreen => {
                clear_screen(screen);
                Ok(TickEvent::Executed)
            },
            Instruction::Draw { x, y, n } => {
                let vx: u8 = self.registers[x as usize];
                let vy: u8 = self.registers[y as usize];
                let start: usize = if n > 0 {
                    self.i as usize
                } else {
                    0
                };
                assert(self.ram@.subrange(start as int, start + n) =~= sprite_of(old(self)@, n));
                let collided = draw_sprite(screen, &self.ram, start, n as usize, vx, vy);
                self.registers[0xF] = if collided {
                    1
                } else {
                    0
                };
                assert(self@ =~= step_cpu(old(self)@, old(screen)@));
                Ok(TickEvent::Executed)
            },
            Instruction::Unknown { op } => Ok(TickEvent::Unimplemented { op }),
            _ => {
                if !self.execute_flow(ins) {
                    if !self.execute_logic(ins) {
                        if !self.execute_arithmetic(ins) {
                            let done = self.execute_data(ins);
                            assert(done);
                        }
                    }
                }
                Ok(TickEvent::Executed)
            },
        }
    }
}

} // verus!
