use vstd::prelude::*;

use crate::breakpoints::BreakpointSet;
use crate::machine::Chip8;
use crate::nibble::u4;
use crate::semantics::{cycle_spec, Chip8Model};
use crate::types::{Chip8Error, Chip8Result, DISPLAY_X, DISPLAY_Y};

verus! {

/// CPU instructions per second.
pub const CPU_HZ: u64 = 700;

/// Timer ticks per second.
pub const TIMER_HZ: u64 = 60;

/// Elapsed time is counted in nanoseconds.
pub const NANOS_PER_SECOND: u64 = 1_000_000_000;

/// What an update of the runner ended on, when no error occurred.
#[derive(Clone, Copy, Debug, PartialEq, Eq, Structural)]
pub enum Chip8RunnerResult {
    /// The program counter reached a breakpoint after a cycle.
    HitBreakpoint,
    /// The update ran the cycles it was owed, or stopped to wait for the next frame.
    Finished,
}

/// An accumulator counts time in nanoseconds times the rate in hertz, so that
/// one step of a clock of `hz` hertz is exactly `NANOS_PER_SECOND` units.
pub open spec fn accumulated(acc: u64, dt: u64, hz: u64) -> int {
    acc + dt * hz
}

/// The number of whole steps in an accumulator.
pub open spec fn steps_in(total: int) -> int {
    total / NANOS_PER_SECOND as int
}

/// What is left of an accumulator once its whole steps are taken out.
pub open spec fn leftover(total: int) -> int {
    total % NANOS_PER_SECOND as int
}

/// `n` timer ticks: both timers count down by `n`, stopping at zero.
pub open spec fn ticked(m: Chip8Model, n: int) -> Chip8Model {
    Chip8Model {
        delay_timer: if m.delay_timer > n { (m.delay_timer - n) as u8 } else { 0 },
        sound_timer: if m.sound_timer > n { (m.sound_timer - n) as u8 } else { 0 },
        ..m
    }
}

/// Where a run of CPU cycles ends.
pub struct RunOutcome {
    /// The machine state after the run.
    pub model: Chip8Model,
    /// The number of cycles executed.
    pub cycles: nat,
    /// Whether the run stopped before its budget was spent: on a wait for the
    /// next frame, a breakpoint or an error.
    pub stopped: bool,
    /// What the update returns.
    pub result: Result<Chip8RunnerResult, Chip8Error>,
}

/// Runs one CPU cycle for each byte of `rnds` (the byte that a `Cxnn` of that
/// cycle draws), stopping after a cycle that fails, that leaves the program
/// counter on a breakpoint (when `breakpoints` is given), or that asks to wait
/// for the next frame.
pub open spec fn run_cpu(m: Chip8Model, rnds: Seq<u8>, breakpoints: Option<Set<u16>>) -> RunOutcome
    decreases rnds.len(),
{
    if rnds.len() == 0 {
        RunOutcome { model: m, cycles: 0, stopped: false, result: Ok(Chip8RunnerResult::Finished) }
    } else {
        let prev = run_cpu(m, rnds.drop_last(), breakpoints);
        if prev.stopped {
            prev
        } else {
            step_outcome(prev.model, prev.cycles + 1, rnds.last(), breakpoints)
        }
    }
}

/// The runner as mathematical values.
pub struct RunnerModel {
    pub chip8: Chip8Model,
    /// CPU accumulator, in nanosecond-hertz.
    pub cpu_acc: u64,
    /// Timer accumulator, in nanosecond-hertz.
    pub timer_acc: u64,
}

/// High-level emulator runner that turns elapsed time into CPU cycles and
/// timer ticks, at fixed rates.
pub struct Chip8Runner {
    chip8: Chip8,
    cpu_dt_accumulator: u64,
    timer_dt_accumulator: u64,
}

impl View for Chip8Runner {
    type V = RunnerModel;

    closed spec fn view(&self) -> RunnerModel {
        RunnerModel {
            chip8: self.chip8@,
            cpu_acc: self.cpu_dt_accumulator,
            timer_acc: self.timer_dt_accumulator,
        }
    }
}

/// The view of an optional breakpoint set.
pub open spec fn breakpoints_view(b: Option<&BreakpointSet>) -> Option<Set<u16>> {
    match b {
        Some(s) => Some(s@),
        None => None,
    }
}

impl Chip8Runner {
    /// The machine is well formed.
    pub closed spec fn wf(&self) -> bool {
        self.chip8.wf()
    }

    /// A runner around `chip8`, with both accumulators empty.
    pub fn new(chip8: Chip8) -> (r: Chip8Runner)
        requires
            chip8.wf(),
        ensures
            r.wf(),
            r@ == (RunnerModel { chip8: chip8@, cpu_acc: 0, timer_acc: 0 }),
    {
        Chip8Runner { chip8, cpu_dt_accumulator: 0, timer_dt_accumulator: 0 }
    }

    /// Advances the emulator by `dt` nanoseconds, without breakpoints.
    pub fn update(&mut self, dt: u64) -> (r: Result<Chip8RunnerResult, Chip8Error>)
        requires
            old(self).wf(),
        ensures
            final(self).wf(),
            updated(old(self)@, dt, None, final(self)@, r),
    {
        self.update_with_breakpoints(dt, None)
    }

    /// Advances the emulator by `dt` nanoseconds. First the timers get one tick
    /// per whole timer step accumulated; then the CPU gets one cycle per whole
    /// CPU step, stopping early, with the CPU accumulator emptied, after a cycle
    /// that asks to wait for the next frame, that fails, or that leaves the
    /// program counter on one of `breakpoints`.
    pub fn update_with_breakpoints(&mut self, dt: u64, breakpoints: Option<&BreakpointSet>) -> (r:
        Result<Chip8RunnerResult, Chip8Error>)
        requires
            old(self).wf(),
            breakpoints matches Some(b) ==> b.wf(),
        ensures
            final(self).wf(),
            updated(old(self)@, dt, breakpoints_view(breakpoints), final(self)@, r),
    {
        let ghost old_model = self@;
        // Timers first.
        let timer_total = self.timer_dt_accumulator as u128 + dt as u128 * TIMER_HZ as u128;
        let ticks = timer_total / NANOS_PER_SECOND as u128;
        let ghost m0 = self.chip8@;
        let mut t: u128 = 0;
        while t < ticks && (self.chip8.delay_timer() > 0 || self.chip8.sound_timer() > 0)
            invariant
                t <= ticks,
                self.chip8.wf(),
                self.cpu_dt_accumulator == old_model.cpu_acc,
                self.timer_dt_accumulator == old_model.timer_acc,
                m0 == old_model.chip8,
                self.chip8@ == ticked(m0, t as int),
            decreases ticks - t,
        {
            self.chip8.timers_cycle();
            t = t + 1;
            proof {
                assert(self.chip8@.stack =~= ticked(m0, t as int).stack);
            }
        }
        proof {
            assert(self.chip8@ == ticked(m0, ticks as int));
        }
        self.timer_dt_accumulator = (timer_total % NANOS_PER_SECOND as u128) as u64;

        // Then the CPU.
        let cpu_total = self.cpu_dt_accumulator as u128 + dt as u128 * CPU_HZ as u128;
        let budget = cpu_total / NANOS_PER_SECOND as u128;
        let ghost mt = self.chip8@;
        let ghost bps = breakpoints_view(breakpoints);
        let ghost mut rnds: Seq<u8> = Seq::empty();
        proof {
            assert(mt == ticked(old_model.chip8, steps_in(accumulated(old_model.timer_acc, dt, TIMER_HZ))));
            assert(cpu_total == accumulated(old_model.cpu_acc, dt, CPU_HZ));
        }
        let mut done: u128 = 0;
        while done < budget
            invariant
                done <= budget,
                old_model == old(self)@,
                budget == steps_in(accumulated(old_model.cpu_acc, dt, CPU_HZ)),
                cpu_total == accumulated(old_model.cpu_acc, dt, CPU_HZ),
                mt == ticked(old_model.chip8, steps_in(accumulated(old_model.timer_acc, dt, TIMER_HZ))),
                bps == breakpoints_view(breakpoints),
                self.chip8.wf(),
                rnds.len() == done,
                self.timer_dt_accumulator == leftover(accumulated(old_model.timer_acc, dt, TIMER_HZ)),
                run_cpu(mt, rnds, bps).model == self.chip8@,
                run_cpu(mt, rnds, bps).cycles == done,
                !run_cpu(mt, rnds, bps).stopped,
                run_cpu(mt, rnds, bps).result == Ok::<Chip8RunnerResult, Chip8Error>(
                    Chip8RunnerResult::Finished,
                ),
                breakpoints matches Some(b) ==> b.wf(),
            decreases budget - done,
        {
            let ghost before = self.chip8@;
            let r = self.chip8.cpu_cycle();
            let ghost b = choose|b: u8| (self.chip8@, r) == cycle_spec(before, b);
            let ghost prev = rnds;
            proof {
                assert(prev.push(b).drop_last() =~= prev);
                rnds = prev.push(b);
                assert(run_cpu(mt, rnds, bps) == step_outcome(before, (done + 1) as nat, b, bps));
            }
            done = done + 1;
            match r {
                Err(e) => {
                    self.cpu_dt_accumulator = 0;
                    proof {
                        assert(update_outcome(old_model, dt, bps, self@, Err(e), rnds));
                    }
                    return Err(e);
                },
                Ok(c) => {
                    if let Some(bp) = breakpoints {
                        if bp.contains(self.chip8.pc()) {
                            self.cpu_dt_accumulator = 0;
                            proof {
                                assert(update_outcome(
                                    old_model,
                                    dt,
                                    bps,
                                    self@,
                                    Ok(Chip8RunnerResult::HitBreakpoint),
                                    rnds,
                                ));
                            }
                            return Ok(Chip8RunnerResult::HitBreakpoint);
                        }
                    }
                    if c == Chip8Result::WaitForNextFrame {
                        // Wait for the next frame, and do not catch up on the
                        // time left: the accumulator is emptied.
                        self.cpu_dt_accumulator = 0;
                        proof {
                            assert(update_outcome(
                                old_model,
                                dt,
                                bps,
                                self@,
                                Ok(Chip8RunnerResult::Finished),
                                rnds,
                            ));
                        }
                        return Ok(Chip8RunnerResult::Finished);
                    }
                },
            }
        }
        self.cpu_dt_accumulator = (cpu_total % NANOS_PER_SECOND as u128) as u64;
        proof {
            assert(update_outcome(old_model, dt, bps, self@, Ok(Chip8RunnerResult::Finished), rnds));
        }
        Ok(Chip8RunnerResult::Finished)
    }
}

impl Chip8Runner {
    /// Whether the sound timer is running, so that a beep should be played.
    pub fn should_beep(&self) -> (r: bool)
        ensures
            r == (self@.chip8.sound_timer > 0),
    {
        self.chip8.should_beep()
    }

    /// Sets the state of a key on the keypad.
    pub fn set_key(&mut self, key: u4, pressed: bool)
        requires
            old(self).wf(),
        ensures
            final(self).wf(),
            final(self)@ == (RunnerModel {
                chip8: Chip8Model {
                    keypad: old(self)@.chip8.keypad.update(key@ as int, pressed),
                    ..old(self)@.chip8
                },
                ..old(self)@
            }),
    {
        self.chip8.set_key(key, pressed)
    }

    /// The state of the pixel at row `y`, column `x` (true = on).
    pub fn get_display_pixel(&self, y: usize, x: usize) -> (r: bool)
        requires
            self.wf(),
            y < DISPLAY_Y,
            x < DISPLAY_X,
        ensures
            r == self@.chip8.display[y * DISPLAY_X + x],
    {
        self.chip8.get_display_pixel(y, x)
    }

    /// The machine.
    pub fn chip8_ref(&self) -> (r: &Chip8)
        requires
            self.wf(),
        ensures
            r.wf(),
            r@ == self@.chip8,
    {
        &self.chip8
    }

    /// The machine, to change it in place.
    pub fn chip8_mut(&mut self) -> (r: &mut Chip8)
        requires
            old(self).wf(),
        ensures
            r.wf(),
            r@ == old(self)@.chip8,
            final(self)@ == (RunnerModel { chip8: final(r)@, ..old(self)@ }),
            final(r).wf() ==> final(self).wf(),
    {
        &mut self.chip8
    }
}

/// The outcome of one cycle on `m` with random byte `b`, the `cycles`-th of a
/// run that has not stopped before it.
pub open spec fn step_outcome(
    m: Chip8Model,
    cycles: nat,
    b: u8,
    breakpoints: Option<Set<u16>>,
) -> RunOutcome {
    let (m1, r) = cycle_spec(m, b);
    match r {
        Err(e) => RunOutcome { model: m1, cycles, stopped: true, result: Err(e) },
        Ok(c) => if breakpoints is Some && breakpoints->0.contains(m1.pc) {
            RunOutcome {
                model: m1,
                cycles,
                stopped: true,
                result: Ok(Chip8RunnerResult::HitBreakpoint),
            }
        } else {
            RunOutcome {
                model: m1,
                cycles,
                stopped: c == Chip8Result::WaitForNextFrame,
                result: Ok(Chip8RunnerResult::Finished),
            }
        },
    }
}

/// An update by `dt` nanoseconds took `before` to `after` with result `r`,
/// the CPU having drawn the random bytes `rnds`: the timers got their ticks
/// first; then the CPU ran its budget of whole steps unless the run stopped
/// early, which empties the CPU accumulator.
pub open spec fn update_outcome(
    before: RunnerModel,
    dt: u64,
    breakpoints: Option<Set<u16>>,
    after: RunnerModel,
    r: Result<Chip8RunnerResult, Chip8Error>,
    rnds: Seq<u8>,
) -> bool {
    let timer_total = accumulated(before.timer_acc, dt, TIMER_HZ);
    let cpu_total = accumulated(before.cpu_acc, dt, CPU_HZ);
    let o = run_cpu(ticked(before.chip8, steps_in(timer_total)), rnds, breakpoints);
    &&& after.timer_acc == leftover(timer_total)
    &&& rnds.len() <= steps_in(cpu_total)
    &&& o.stopped || rnds.len() == steps_in(cpu_total)
    &&& after.chip8 == o.model
    &&& r == o.result
    &&& after.cpu_acc == if o.stopped {
        0
    } else {
        leftover(cpu_total)
    }
}

/// The contract of an update: it is the outcome of some random bytes.
pub open spec fn updated(
    before: RunnerModel,
    dt: u64,
    breakpoints: Option<Set<u16>>,
    after: RunnerModel,
    r: Result<Chip8RunnerResult, Chip8Error>,
) -> bool {
    exists|rnds: Seq<u8>| #[trigger] update_outcome(before, dt, breakpoints, after, r, rnds)
}

/// Nanoseconds in `n` CPU time-steps, rounded up to a whole nanosecond.
pub open spec fn nanos_for_cpu_steps(n: nat) -> int {
    (n * NANOS_PER_SECOND + CPU_HZ - 1) / CPU_HZ as int
}

/// A run that did not stop early executed one cycle per random byte.
pub proof fn lemma_run_counts_cycles(m: Chip8Model, rnds: Seq<u8>, breakpoints: Option<Set<u16>>)
    ensures
        run_cpu(m, rnds, breakpoints).cycles <= rnds.len(),
        !run_cpu(m, rnds, breakpoints).stopped ==> run_cpu(m, rnds, breakpoints).cycles
            == rnds.len(),
    decreases rnds.len(),
{
    if rnds.len() > 0 {
        lemma_run_counts_cycles(m, rnds.drop_last(), breakpoints);
    }
}

/// An update by `n` CPU time-steps (in whole nanoseconds, rounded up) from an
/// empty CPU accumulator executes exactly `n` cycles when no cycle stops the
/// run, and leaves less than a nanosecond's worth in the accumulator.
pub proof fn lemma_update_by_cpu_steps(
    before: RunnerModel,
    n: nat,
    breakpoints: Option<Set<u16>>,
    after: RunnerModel,
    r: Result<Chip8RunnerResult, Chip8Error>,
    rnds: Seq<u8>,
)
    requires
        before.cpu_acc == 0,
        nanos_for_cpu_steps(n) <= u64::MAX,
        update_outcome(before, nanos_for_cpu_steps(n) as u64, breakpoints, after, r, rnds),
        !run_cpu(
            ticked(
                before.chip8,
                steps_in(accumulated(before.timer_acc, nanos_for_cpu_steps(n) as u64, TIMER_HZ)),
            ),
            rnds,
            breakpoints,
        ).stopped,
    ensures
        run_cpu(
            ticked(
                before.chip8,
                steps_in(accumulated(before.timer_acc, nanos_for_cpu_steps(n) as u64, TIMER_HZ)),
            ),
            rnds,
            breakpoints,
        ).cycles == n,
        after.cpu_acc < CPU_HZ,
{
    let dt = nanos_for_cpu_steps(n);
    let mt = ticked(
        before.chip8,
        steps_in(accumulated(before.timer_acc, dt as u64, TIMER_HZ)),
    );
    lemma_run_counts_cycles(mt, rnds, breakpoints);
    assert(dt * 700 >= n * 1_000_000_000 && dt * 700 < n * 1_000_000_000 + 700) by (nonlinear_arith)
        requires
            dt == (n * 1_000_000_000 + 699) / 700,
    ;
    let total = accumulated(before.cpu_acc, dt as u64, CPU_HZ);
    assert(total == dt * 700);
    assert(total / 1_000_000_000 == n && total % 1_000_000_000 < 700) by (nonlinear_arith)
        requires
            total >= n * 1_000_000_000,
            total < n * 1_000_000_000 + 700,
    ;
}

} // verus!
