//! One frame of emulation: the timer ticks and the instructions that fell due
//! since the frame before.

use crate::cpu::{
    step_cpu, step_error, step_event, step_screen, Chip8CPU, CpuError, CpuState, TickEvent,
};
use crate::timing::{cycles_due, paced, ticks_due, Pacer};
use vstd::prelude::*;

verus! {

/// A machine: the processor and the screen it draws to.
pub struct MachineState {
    pub cpu: CpuState,
    pub screen: Seq<u32>,
}

/// How a run of instructions ended.
pub struct RunOutcome {
    pub machine: MachineState,
    /// The fault that stopped the run, if one did.
    pub fault: Option<CpuError>,
    /// The words that were skipped as unimplemented, in the order met.
    pub skipped: Seq<u16>,
}

/// What a run of instructions reports to its caller.
#[derive(Clone, Debug, PartialEq, Eq)]
pub struct RunReport {
    /// The words that were skipped as unimplemented, in the order met.
    pub skipped: Vec<u16>,
    /// The fault that stopped the run, if one did.
    pub fault: Option<CpuError>,
}

/// The words that a step with event `event` skips: the word itself if it is
/// unimplemented, none otherwise.
pub open spec fn skipped_by(event: TickEvent) -> Seq<u16> {
    match event {
        TickEvent::Unimplemented { op } => seq![op],
        TickEvent::Executed => Seq::empty(),
    }
}

/// One step of the machine: the processor and the screen after the
/// instruction at the program counter, with the word if it was skipped as
/// unimplemented; or the machine unchanged and the fault that the instruction
/// raised.
#[verifier::opaque]
pub open spec fn step_machine(m: MachineState) -> RunOutcome {
    match step_error(m.cpu) {
        Some(e) => RunOutcome { machine: m, fault: Some(e), skipped: Seq::empty() },
        None => RunOutcome {
            machine: MachineState {
                cpu: step_cpu(m.cpu, m.screen),
                screen: step_screen(m.cpu, m.screen),
            },
            fault: None,
            skipped: skipped_by(step_event(m.cpu)),
        },
    }
}

/// The machine after up to `count` steps; the run stops at the first fault,
/// with the machine as the faulting instruction found it. The skipped words
/// are those met before the run ended.
pub open spec fn run_spec(m: MachineState, count: nat) -> RunOutcome
    decreases count,
{
    if count == 0 {
        RunOutcome { machine: m, fault: None, skipped: Seq::empty() }
    } else {
        let one = step_machine(m);
        if one.fault is Some {
            one
        } else {
            let rest = run_spec(one.machine, (count - 1) as nat);
            RunOutcome { skipped: one.skipped + rest.skipped, ..rest }
        }
    }
}

/// A timer after `ticks` ticks: it counts down to zero and stays there.
pub open spec fn counted_down(timer: u8, ticks: int) -> u8 {
    if timer > ticks {
        (timer - ticks) as u8
    } else {
        0
    }
}

/// The processor after `ticks` timer ticks.
pub open spec fn timers_after(s: CpuState, ticks: int) -> CpuState {
    CpuState { dt: counted_down(s.dt, ticks), st: counted_down(s.st, ticks), ..s }
}

/// Executes one instruction and hands back the word if it was skipped as
/// unimplemented.
fn step_once(cpu: &mut Chip8CPU, screen: &mut [u32; 524288]) -> (r: Result<Option<u16>, CpuError>)
    requires
        old(cpu).wf(),
    ensures
        final(cpu).wf(),
        final(cpu)@ == step_machine(
            MachineState { cpu: old(cpu)@, screen: old(screen)@ },
        ).machine.cpu,
        final(screen)@ == step_machine(
            MachineState { cpu: old(cpu)@, screen: old(screen)@ },
        ).machine.screen,
        match r {
            Ok(word) => {
                let one = step_machine(MachineState { cpu: old(cpu)@, screen: old(screen)@ });
                &&& one.fault is None
                &&& one.skipped == match word {
                    Some(op) => seq![op],
                    None => Seq::empty(),
                }
            },
            Err(e) => {
                let one = step_machine(MachineState { cpu: old(cpu)@, screen: old(screen)@ });
                &&& one.fault == Some(e)
                &&& one.skipped == Seq::<u16>::empty()
            },
        },
{
    reveal(step_machine);
    match cpu.tick(screen) {
        Ok(TickEvent::Executed) => Ok(None),
        Ok(TickEvent::Unimplemented { op }) => Ok(Some(op)),
        Err(e) => Err(e),
    }
}

/// Executes up to `count` instructions and stops at the first fault. The
/// report holds the unimplemented words that were skipped on the way, and the
/// fault if there was one.
pub fn run_instructions(cpu: &mut Chip8CPU, screen: &mut [u32; 524288], count: u64) -> (report:
    RunReport)
    requires
        old(cpu).wf(),
    ensures
        final(cpu).wf(),
        ({
            let outcome = run_spec(
                MachineState { cpu: old(cpu)@, screen: old(screen)@ },
                count as nat,
            );
            &&& final(cpu)@ == outcome.machine.cpu
            &&& final(screen)@ == outcome.machine.screen
            &&& report.fault == outcome.fault
            &&& report.skipped@ == outcome.skipped
        }),
{
    let ghost start = MachineState { cpu: old(cpu)@, screen: old(screen)@ };
    let mut left: u64 = count;
    let mut skipped: Vec<u16> = Vec::new();
    assert(skipped@ + run_spec(start, count as nat).skipped =~= run_spec(
        start,
        count as nat,
    ).skipped);
    while left > 0
        invariant
            cpu.wf(),
            left <= count,
            start == (MachineState { cpu: old(cpu)@, screen: old(screen)@ }),
            run_spec(start, count as nat).machine == run_spec(
                MachineState { cpu: cpu@, screen: screen@ },
                left as nat,
            ).machine,
            run_spec(start, count as nat).fault == run_spec(
                MachineState { cpu: cpu@, screen: screen@ },
                left as nat,
            ).fault,
            run_spec(start, count as nat).skipped == skipped@ + run_spec(
                MachineState { cpu: cpu@, screen: screen@ },
                left as nat,
            ).skipped,
        decreases left,
    {
        let ghost here = MachineState { cpu: cpu@, screen: screen@ };
        let ghost seen = skipped@;
        match step_once(cpu, screen) {
            Ok(word) => {
                match word {
                    Some(op) => {
                        skipped.push(op);
                    },
                    None => {},
                }
                proof {
                    let one = step_machine(here);
                    let rest = run_spec(one.machine, (left - 1) as nat);
                    assert(skipped@ =~= seen + one.skipped);
                    assert(seen + (one.skipped + rest.skipped) =~= skipped@ + rest.skipped);
                }
            },
            Err(e) => {
                assert(seen + Seq::<u16>::empty() =~= seen);
                return RunReport { skipped, fault: Some(e) };
            },
        }
        left = left - 1;
    }
    assert(skipped@ + Seq::<u16>::empty() =~= skipped@);
    RunReport { skipped, fault: None }
}

/// Applies `ticks` timer ticks at once.
pub fn advance_timers_by(cpu: &mut Chip8CPU, ticks: u64)
    requires
        old(cpu).wf(),
    ensures
        final(cpu).wf(),
        final(cpu)@ == timers_after(old(cpu)@, ticks as int),
{
    let ghost start = cpu@;
    let mut done: u64 = 0;
    while done < ticks && (cpu.delay_timer() > 0 || cpu.sound_timer() > 0)
        invariant
            cpu.wf(),
            done <= ticks,
            cpu@ == timers_after(start, done as int),
        decreases ticks - done,
    {
        cpu.advance_timers();
        done = done + 1;
    }
}

/// Accounts for `elapsed_micros` microseconds: applies the timer ticks that
/// fell due in them, then executes the instructions that fell due, stopping
/// at the first fault. The report holds the unimplemented words that were
/// skipped, and the fault if there was one.
pub fn run_frame(
    cpu: &mut Chip8CPU,
    pacer: &mut Pacer,
    screen: &mut [u32; 524288],
    elapsed_micros: u32,
) -> (report: RunReport)
    requires
        old(cpu).wf(),
        old(pacer).wf(),
    ensures
        final(cpu).wf(),
        final(pacer).wf(),
        final(pacer)@ == paced(old(pacer)@, elapsed_micros as int),
        ({
            let ticked = timers_after(old(cpu)@, ticks_due(old(pacer)@, elapsed_micros as int));
            let outcome = run_spec(
                MachineState { cpu: ticked, screen: old(screen)@ },
                cycles_due(old(pacer)@, elapsed_micros as int) as nat,
            );
            &&& final(cpu)@ == outcome.machine.cpu
            &&& final(screen)@ == outcome.machine.screen
            &&& report.fault == outcome.fault
            &&& report.skipped@ == outcome.skipped
        }),
{
    let due = pacer.advance(elapsed_micros);
    advance_timers_by(cpu, due.timer_ticks);
    run_instructions(cpu, screen, due.instructions)
}

} // verus!
