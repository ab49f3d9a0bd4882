use vstd::prelude::*;

use crate::breakpoints::BreakpointSet;
use crate::nibble::{u12, u4};
use crate::opcode::{decodes_to, Opcode};
use crate::runner::{updated, Chip8Runner, Chip8RunnerResult, RunnerModel};
use crate::semantics::{cycle_spec, word_at, Chip8Model};
use crate::types::{Chip8Error, MEMORY_SIZE};

verus! {

/// Debugger commands.
#[derive(Clone, Copy, Debug)]
pub enum Command {
    /// Start execution.
    Run,
    /// Pause execution.
    Pause,
    /// Execute a single instruction.
    Step,
    /// Exit the debugger.
    Quit,
    /// Manage breakpoints.
    Breakpoint { action: BreakpointAction },
    /// Display memory contents.
    Mem { args: MemArgs },
    /// Disassemble memory.
    Disasm { args: MemArgs },
    /// Set a V register value.
    SetV { idx: u4, value: u8 },
    /// Set the I register.
    SetI { value: u12 },
    /// Set the program counter.
    SetPc { value: u12 },
    /// Set key state.
    SetKey { key: u4, pressed: bool },
    /// Set the delay timer.
    SetDt { value: u8 },
    /// Set the sound timer.
    SetSt { value: u8 },
    /// Push a value onto the stack.
    Push { value: u12 },
    /// Pop a value from the stack.
    Pop,
}

/// A parsed command line of the debugger.
#[derive(Clone, Copy, Debug)]
pub struct Cli {
    pub command: Command,
}

/// Breakpoint commands.
#[derive(Clone, Copy, Debug)]
pub enum BreakpointAction {
    /// Set a breakpoint at an address.
    Add { addr: u12 },
    /// Clear the breakpoint at an address.
    Clear { addr: u12 },
    /// List all breakpoints.
    List,
    /// Clear all breakpoints.
    ClearAll,
}

/// A window of memory: a start address and a length in bytes.
#[derive(Clone, Copy, Debug)]
pub struct MemArgs {
    /// Starting memory address.
    pub offset: u12,
    /// Number of bytes.
    pub len: u12,
}

/// What a debugger command returns.
#[derive(Debug)]
pub enum CommandResult {
    /// The command was carried out.
    Done,
    /// The breakpoints, ascending.
    Breakpoints(Vec<u16>),
    /// Memory from `offset` on.
    MemDump { data: Vec<u8>, offset: u16 },
    /// Instruction words from `offset` on, two bytes apart, each with its decoding.
    Disasm { instructions: Vec<(u16, Opcode)>, offset: u16 },
    /// The debugger should exit.
    Quit,
}

/// The end of a memory window: `offset + len`, clamped to the memory size.
pub open spec fn window_end(offset: u16, len: u16) -> int {
    if offset + len < MEMORY_SIZE {
        offset + len
    } else {
        MEMORY_SIZE as int
    }
}

/// The debugger as mathematical values.
pub struct ExecutorModel {
    /// Whether polling runs the machine.
    pub running: bool,
    pub runner: RunnerModel,
    pub breakpoints: Set<u16>,
}

/// `e` with its machine replaced by `m`.
pub open spec fn with_chip8(e: ExecutorModel, m: Chip8Model) -> ExecutorModel {
    ExecutorModel { runner: RunnerModel { chip8: m, ..e.runner }, ..e }
}

/// `e`, paused.
pub open spec fn paused(e: ExecutorModel) -> ExecutorModel {
    ExecutorModel { running: false, ..e }
}

/// `instructions` is the disassembly of memory from `offset` up to `end`: the
/// words at `offset`, `offset + 2`, ... below `end`, each with its decoding.
pub open spec fn disassembly(
    memory: Seq<u8>,
    offset: u16,
    end: int,
    instructions: Seq<(u16, Opcode)>,
) -> bool {
    &&& instructions.len() == if end > offset {
        (end - offset + 1) / 2
    } else {
        0
    }
    &&& forall|k: int|
        0 <= k < instructions.len() ==> {
            let (w, op) = #[trigger] instructions[k];
            &&& w == word_at(memory, (offset + 2 * k) as u16)
            &&& decodes_to(w, op)
        }
}

/// The effect of a command on the debugger: `before` becomes `after`, with result `r`.
pub open spec fn command_outcome(
    before: ExecutorModel,
    command: Command,
    after: ExecutorModel,
    r: Result<CommandResult, Chip8Error>,
) -> bool {
    let m = before.runner.chip8;
    let done = r is Ok && r->Ok_0 is Done;
    match command {
        Command::Run => after == ExecutorModel { running: true, ..before } && done,
        Command::Pause => after == paused(before) && done,
        Command::Step => exists|b: u8|
            {
                let (m1, c) = #[trigger] cycle_spec(m, b);
                &&& after == with_chip8(before, m1)
                &&& match c {
                    Ok(_) => done,
                    Err(e) => r == Err::<CommandResult, Chip8Error>(e),
                }
            },
        Command::Quit => after == before && r is Ok && r->Ok_0 is Quit,
        Command::Breakpoint { action } => match action {
            BreakpointAction::Add { addr } => after == ExecutorModel {
                breakpoints: before.breakpoints.insert(addr@),
                ..before
            } && done,
            BreakpointAction::Clear { addr } => after == ExecutorModel {
                breakpoints: before.breakpoints.remove(addr@),
                ..before
            } && done,
            BreakpointAction::ClearAll => after == ExecutorModel {
                breakpoints: Set::empty(),
                ..before
            } && done,
            BreakpointAction::List => after == before && match r {
                Ok(CommandResult::Breakpoints(list)) => {
                    &&& list@.to_set() == before.breakpoints
                    &&& forall|j: int, k: int| 0 <= j < k < list@.len() ==> list@[j] < list@[k]
                },
                _ => false,
            },
        },
        Command::Mem { args } => after == before && match r {
            Ok(CommandResult::MemDump { data, offset }) => {
                &&& offset == args.offset@
                &&& data@ == m.memory.subrange(
                    args.offset@ as int,
                    window_end(args.offset@, args.len@),
                )
            },
            _ => false,
        },
        Command::Disasm { args } => after == before && match r {
            Ok(CommandResult::Disasm { instructions, offset }) => {
                &&& offset == args.offset@
                &&& disassembly(
                    m.memory,
                    args.offset@,
                    window_end(args.offset@, args.len@),
                    instructions@,
                )
            },
            _ => false,
        },
        Command::SetV { idx, value } => after == with_chip8(
            before,
            Chip8Model { v: m.v.update(idx@ as int, value), ..m },
        ) && done,
        Command::SetI { value } => after == with_chip8(before, Chip8Model { i: value@, ..m })
            && done,
        Command::SetPc { value } => after == with_chip8(before, Chip8Model { pc: value@, ..m })
            && done,
        Command::SetKey { key, pressed } => after == with_chip8(
            before,
            Chip8Model { keypad: m.keypad.update(key@ as int, pressed), ..m },
        ) && done,
        Command::SetDt { value } => after == with_chip8(
            before,
            Chip8Model { delay_timer: value, ..m },
        ) && done,
        Command::SetSt { value } => after == with_chip8(
            before,
            Chip8Model { sound_timer: value, ..m },
        ) && done,
        Command::Push { value } => after == with_chip8(
            before,
            Chip8Model { stack: m.stack.push(value@), ..m },
        ) && done,
        Command::Pop => after == with_chip8(
            before,
            if m.stack.len() == 0 {
                m
            } else {
                Chip8Model { stack: m.stack.drop_last(), ..m }
            },
        ) && done,
    }
}

/// The debugger: a runner that is either running or paused, and a set of breakpoints.
pub struct Executor {
    is_running: bool,
    runner: Chip8Runner,
    breakpoints: BreakpointSet,
}

impl View for Executor {
    type V = ExecutorModel;

    closed spec fn view(&self) -> ExecutorModel {
        ExecutorModel { running: self.is_running, runner: self.runner@, breakpoints: self.breakpoints@ }
    }
}

impl Executor {
    /// The runner and the breakpoint set are well formed.
    pub closed spec fn wf(&self) -> bool {
        self.runner.wf() && self.breakpoints.wf()
    }

    /// A paused debugger around `runner`, with no breakpoints.
    pub fn new(runner: Chip8Runner) -> (r: Executor)
        requires
            runner.wf(),
        ensures
            r.wf(),
            r@ == (ExecutorModel { running: false, runner: runner@, breakpoints: Set::empty() }),
    {
        Executor { is_running: false, runner, breakpoints: BreakpointSet::new() }
    }

    /// Advances the machine by `dt` nanoseconds while running, stopping at the
    /// breakpoints; a breakpoint hit or an error pauses the debugger. While
    /// paused nothing happens.
    pub fn poll(&mut self, dt: u64) -> (r: Result<Chip8RunnerResult, Chip8Error>)
        requires
            old(self).wf(),
        ensures
            final(self).wf(),
            !old(self)@.running ==> final(self)@ == old(self)@ && r == Ok::<
                Chip8RunnerResult,
                Chip8Error,
            >(Chip8RunnerResult::Finished),
            old(self)@.running ==> {
                &&& updated(
                    old(self)@.runner,
                    dt,
                    Some(old(self)@.breakpoints),
                    final(self)@.runner,
                    r,
                )
                &&& final(self)@.breakpoints == old(self)@.breakpoints
                &&& final(self)@.running == (r == Ok::<Chip8RunnerResult, Chip8Error>(
                    Chip8RunnerResult::Finished,
                ))
            },
    {
        if !self.is_running {
            return Ok(Chip8RunnerResult::Finished);
        }
        let result = self.runner.update_with_breakpoints(dt, Some(&self.breakpoints));
        match result {
            Ok(Chip8RunnerResult::Finished) => {},
            _ => {
                self.is_running = false;
            },
        }
        result
    }

    /// Starts execution.
    pub fn run(&mut self)
        ensures
            final(self)@ == (ExecutorModel { running: true, ..old(self)@ }),
            old(self).wf() ==> final(self).wf(),
    {
        self.is_running = true;
    }

    /// Pauses execution.
    pub fn pause(&mut self)
        ensures
            final(self)@ == paused(old(self)@),
            old(self).wf() ==> final(self).wf(),
    {
        self.is_running = false;
    }

    /// Whether the debugger is running.
    pub fn is_running(&self) -> (r: bool)
        ensures
            r == self@.running,
    {
        self.is_running
    }
}

impl Executor {
    /// Carries out a debugger command.
    pub fn execute(&mut self, command: Command) -> (r: Result<CommandResult, Chip8Error>)
        requires
            old(self).wf(),
        ensures
            final(self).wf(),
            command_outcome(old(self)@, command, final(self)@, r),
    {
        match command {
            Command::Run => self.run(),
            Command::Pause => self.pause(),
            Command::Step => return self.step(),
            Command::Quit => return Ok(CommandResult::Quit),
            Command::Breakpoint { action } => return Ok(self.handle_breakpoint(action)),
            Command::Mem { args } => return Ok(self.handle_mem(args.offset, args.len)),
            Command::Disasm { args } => return Ok(self.handle_disasm(args.offset, args.len)),
            Command::SetV { idx, value } => self.runner.chip8_mut().set_v(idx, value),
            Command::SetI { value } => self.runner.chip8_mut().set_i(value),
            Command::SetPc { value } => self.runner.chip8_mut().set_pc(value),
            Command::SetKey { key, pressed } => self.runner.chip8_mut().set_key(key, pressed),
            Command::SetDt { value } => self.runner.chip8_mut().set_delay_timer(value),
            Command::SetSt { value } => self.runner.chip8_mut().set_sound_timer(value),
            Command::Push { value } => self.runner.chip8_mut().push_stack(value),
            Command::Pop => {
                self.runner.chip8_mut().pop_stack();
            },
        };
        Ok(CommandResult::Done)
    }

    /// Executes one CPU cycle, whether running or paused.
    pub fn step(&mut self) -> (r: Result<CommandResult, Chip8Error>)
        requires
            old(self).wf(),
        ensures
            final(self).wf(),
            command_outcome(old(self)@, Command::Step, final(self)@, r),
    {
        let c = self.runner.chip8_mut().cpu_cycle();
        match c {
            Ok(_) => Ok(CommandResult::Done),
            Err(e) => Err(e),
        }
    }

    fn handle_breakpoint(&mut self, action: BreakpointAction) -> (r: CommandResult)
        requires
            old(self).wf(),
        ensures
            final(self).wf(),
            command_outcome(old(self)@, Command::Breakpoint { action }, final(self)@, Ok(r)),
    {
        match action {
            BreakpointAction::Add { addr } => {
                self.breakpoints.insert(addr);
            },
            BreakpointAction::Clear { addr } => {
                self.breakpoints.remove(addr);
            },
            BreakpointAction::ClearAll => {
                self.breakpoints.clear();
            },
            BreakpointAction::List => {
                return CommandResult::Breakpoints(self.breakpoints.to_sorted_vec());
            },
        };
        CommandResult::Done
    }

    fn handle_mem(&self, offset: u12, len: u12) -> (r: CommandResult)
        requires
            self.wf(),
        ensures
            command_outcome(
                self@,
                Command::Mem { args: MemArgs { offset, len } },
                self@,
                Ok(r),
            ),
    {
        let start = offset.index();
        let end = if start + len.index() < MEMORY_SIZE {
            start + len.index()
        } else {
            MEMORY_SIZE
        };
        let chip8 = self.runner.chip8_ref();
        proof {
            chip8.lemma_view_wf();
        }
        let mut data: Vec<u8> = Vec::new();
        let mut a: usize = start;
        while a < end
            invariant
                start <= a <= end,
                end <= MEMORY_SIZE,
                chip8.wf(),
                chip8@.memory.len() == MEMORY_SIZE,
                data@ == chip8@.memory.subrange(start as int, a as int),
            decreases end - a,
        {
            data.push(chip8.memory_at(a));
            a = a + 1;
            assert(data@ =~= chip8@.memory.subrange(start as int, a as int));
        }
        CommandResult::MemDump { data, offset: offset.value() }
    }

    fn handle_disasm(&self, offset: u12, len: u12) -> (r: CommandResult)
        requires
            self.wf(),
        ensures
            command_outcome(
                self@,
                Command::Disasm { args: MemArgs { offset, len } },
                self@,
                Ok(r),
            ),
    {
        let start = offset.index();
        let end = if start + len.index() < MEMORY_SIZE {
            start + len.index()
        } else {
            MEMORY_SIZE
        };
        let chip8 = self.runner.chip8_ref();
        let mut instructions: Vec<(u16, Opcode)> = Vec::new();
        let mut pc: usize = start;
        while pc < end
            invariant
                start <= pc,
                pc <= end + 1,
                (pc - start) % 2 == 0,
                end <= MEMORY_SIZE,
                chip8.wf(),
                instructions@.len() == (pc - start) / 2,
                forall|k: int|
                    0 <= k < instructions@.len() ==> {
                        let (w, op) = #[trigger] instructions@[k];
                        &&& w == word_at(chip8@.memory, (start + 2 * k) as u16)
                        &&& decodes_to(w, op)
                    },
            decreases end + 1 - pc,
        {
            let value = chip8.word_at(u12::new(pc as u16));
            let opcode = Opcode::decode(value);
            instructions.push((value, opcode));
            pc = pc + 2;
        }
        CommandResult::Disasm { instructions, offset: offset.value() }
    }
}

impl Executor {
    /// The framebuffer, row-major.
    pub fn get_display(&self) -> (r: &[bool])
        requires
            self.wf(),
        ensures
            r@ == self@.runner.chip8.display,
    {
        self.runner.chip8_ref().display()
    }

    /// The program counter.
    pub fn get_pc(&self) -> (r: u16)
        requires
            self.wf(),
        ensures
            r == self@.runner.chip8.pc,
    {
        self.runner.chip8_ref().pc()
    }

    /// The index register.
    pub fn get_i(&self) -> (r: u16)
        requires
            self.wf(),
        ensures
            r == self@.runner.chip8.i,
    {
        self.runner.chip8_ref().i()
    }

    /// The registers `V0` to `VF`.
    pub fn get_v(&self) -> (r: &[u8; 16])
        requires
            self.wf(),
        ensures
            r@ == self@.runner.chip8.v,
    {
        self.runner.chip8_ref().v()
    }

    /// The return addresses, the most recent last.
    pub fn get_stack(&self) -> (r: Vec<u16>)
        requires
            self.wf(),
        ensures
            r@ == self@.runner.chip8.stack,
    {
        self.runner.chip8_ref().stack()
    }

    /// The delay timer.
    pub fn get_delay_timer(&self) -> (r: u8)
        requires
            self.wf(),
        ensures
            r == self@.runner.chip8.delay_timer,
    {
        self.runner.chip8_ref().delay_timer()
    }

    /// The sound timer.
    pub fn get_sound_timer(&self) -> (r: u8)
        requires
            self.wf(),
        ensures
            r == self@.runner.chip8.sound_timer,
    {
        self.runner.chip8_ref().sound_timer()
    }

    /// The keypad.
    pub fn get_keypad(&self) -> (r: &[bool; 16])
        requires
            self.wf(),
        ensures
            r@ == self@.runner.chip8.keypad,
    {
        self.runner.chip8_ref().keypad()
    }

    /// The runner, to drive it in place.
    pub fn runner_mut(&mut self) -> (r: &mut Chip8Runner)
        requires
            old(self).wf(),
        ensures
            r.wf(),
            r@ == old(self)@.runner,
            final(self)@ == (ExecutorModel { runner: final(r)@, ..old(self)@ }),
            final(r).wf() ==> final(self).wf(),
    {
        &mut self.runner
    }
}

/// Pausing twice is pausing once, and leaves the debugger paused.
pub proof fn lemma_pause_idempotent(e: ExecutorModel)
    ensures
        paused(paused(e)) == paused(e),
        !paused(e).running,
{
}

} // verus!
