use vstd::prelude::*;

use crate::errors::Error;
use crate::machine::instruction::op_code::OpCode;
use crate::machine::machine::{
    current_instruction, initial_memory, initial_state, load_spec, tick_pre, tick_spec,
};
use crate::machine::types::{Address, Word};
use crate::machine::{Instruction, Machine, MachineModel};
use crate::ui::Rom;

verus! {

/// How the emulator is run: which program, how many machine cycles per
/// second, and where to write the final machine state, if anywhere.
pub struct EmulatorConfig {
    pub rom_path: String,
    pub fps: u64,
    pub dump_path: Option<String>,
}

/// The `Duration` of `nanos` nanoseconds.
pub uninterp spec fn duration_from_nanos(nanos: u64) -> core::time::Duration;

/// Calls `core::time::Duration::from_nanos`; the contract only names the
/// result, as a function of the number of nanoseconds.
#[verifier::external_body]
fn nanos_to_duration(nanos: u64) -> (d: core::time::Duration)
    ensures
        d == duration_from_nanos(nanos),
{
    core::time::Duration::from_nanos(nanos)
}

impl EmulatorConfig {
    /// The length of one frame in nanoseconds: a second divided by the
    /// frame rate, rounded down.
    pub fn frame_nanos(&self) -> (n: u64)
        requires
            self.fps > 0,
        ensures
            n == 1_000_000_000u64 / self.fps,
    {
        1_000_000_000 / self.fps
    }

    /// The length of one frame.
    pub fn frame_time(&self) -> (d: core::time::Duration)
        requires
            self.fps > 0,
        ensures
            d == duration_from_nanos(1_000_000_000u64 / self.fps),
    {
        nanos_to_duration(self.frame_nanos())
    }
}

/// What one frame of the emulator did.
#[derive(Debug)]
pub enum Step {
    /// The emulator had already stopped; nothing ran.
    Stopped,
    /// The instruction ran.
    Executed(Instruction),
    /// The instruction was `exit`; the emulator stops.
    Exited(Instruction),
    /// The word at the program counter is no instruction; the emulator
    /// stops.
    Halted(Error),
    /// The instruction ran and failed; the emulator cannot go on.
    Failed(Instruction, Error),
    /// The next machine cycle would fault (a fetch or jump past the last
    /// address, a stack overflow or underflow, a sprite past the end of
    /// memory); the emulator cannot go on.
    Fault,
}

/// What one frame of a running emulator does: a stopped emulator does
/// nothing; otherwise the instruction at the program counter runs, and the
/// emulator stops when the program exits or reaches a word that is no
/// instruction. `m` and `terminated` are the state before, `m2` and
/// `terminated2` the state after.
pub open spec fn step_effect(m: MachineModel, terminated: bool, m2: MachineModel, terminated2: bool, s: Step) -> bool {
    if terminated {
        s is Stopped && m2 == m && terminated2
    } else if m.program_counter.0 + 1 >= 0x1000 {
        s is Fault && m2 == m && !terminated2
    } else {
        match current_instruction(m) {
            None => s matches Step::Halted(e)
                && e == Error::InvalidOpCode(OpCode(Word(m.word_at(m.program_counter.0 as int))))
                && terminated2 && m2 == m,
            Some(i) => if !tick_pre(m) {
                s is Fault && m2 == m && !terminated2
            } else {
                &&& m2 == tick_spec(m).0
                &&& match tick_spec(m).1 {
                    Ok(()) => s == Step::Executed(i) && !terminated2,
                    Err(Error::MachineExit) => s == Step::Exited(i) && terminated2,
                    Err(e) => s == Step::Failed(i, e) && !terminated2,
                }
            },
        }
    }
}

/// A machine running a loaded program, one instruction per frame.
pub struct Emulator {
    pub machine: Machine,
    pub terminated: bool,
    pub config: EmulatorConfig,
}

impl Emulator {
    /// A new machine with `rom` loaded at the usual program start, 0x200.
    pub fn new(config: EmulatorConfig, rom: &mut Rom) -> (e: Emulator)
        requires
            old(rom).loaded_at is None,
        ensures
            e.machine.wf(),
            e.machine@ == (MachineModel {
                memory: load_spec(initial_memory(), 0x200, old(rom).bytes@),
                program_counter: Address(0x200),
                ..initial_state(None)
            }),
            !e.terminated,
            e.config == config,
            final(rom).loaded_at == Some(0x200usize),
            final(rom).bytes@ == old(rom).bytes@,
            final(rom).name@ == old(rom).name@,
    {
        let mut machine = Machine::new();
        machine.load_rom(rom, None);
        Emulator { machine, terminated: false, config }
    }

    /// One frame: runs the instruction at the program counter unless the
    /// emulator has stopped, and stops it when the program exits or reaches
    /// a word that is no instruction.
    pub fn step(&mut self) -> (s: Step)
        requires
            old(self).machine.wf(),
        ensures
            final(self).machine.wf(),
            step_effect(old(self).machine@, old(self).terminated, final(self).machine@, final(self).terminated, s),
    {
        if self.terminated {
            return Step::Stopped;
        }
        if self.machine.program_counter.value() + 1 >= 0x1000 {
            return Step::Fault;
        }
        match self.machine.next_instruction() {
            Ok(instruction) => {
                if !self.machine.can_tick() {
                    return Step::Fault;
                }
                match self.machine.tick() {
                    Ok(()) => Step::Executed(instruction),
                    Err(Error::MachineExit) => {
                        self.terminated = true;
                        Step::Exited(instruction)
                    },
                    Err(error) => Step::Failed(instruction, error),
                }
            },
            Err(error) => {
                self.terminated = true;
                Step::Halted(error)
            },
        }
    }

    /// A frame of the emulator's loop: where the frame time is up, one
    /// `step`; otherwise nothing happens and `Stopped` is returned.
    pub fn tick(&mut self, elapsed: bool) -> (s: Step)
        requires
            old(self).machine.wf(),
        ensures
            final(self).machine.wf(),
            !elapsed ==> s is Stopped && final(self).machine@ == old(self).machine@
                && final(self).terminated == old(self).terminated,
            elapsed ==> step_effect(old(self).machine@, old(self).terminated, final(self).machine@,
                final(self).terminated, s),
    {
        if !elapsed {
            return Step::Stopped;
        }
        self.step()
    }
}

} // verus!
