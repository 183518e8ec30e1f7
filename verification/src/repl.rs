use vstd::prelude::*;

use crate::command::{Command, CommandModel, MachineState, MetaCommand, MetaCommandModel};
use crate::errors::{Error, Result};
use crate::machine::config;
use crate::machine::instruction::op_code::OpCode;
use crate::machine::machine::{
    current_instruction, demo_spec, execute_pre, execute_spec, initial_state, load_spec, tick_pre,
    tick_spec,
};
use crate::machine::types::{Address, Word};
use crate::machine::{Instruction, Machine, MachineModel};
use crate::ui::Rom;

verus! {

/// What the session needs done outside it after a command or a frame.
#[derive(Debug)]
pub enum Request {
    /// Nothing.
    Nothing,
    /// Read the program image named by the path and hand it to
    /// `Repl::load_rom` with this address.
    ReadRom(Vec<u8>, Address),
    /// Write the machine state to the path.
    DumpMachine(Vec<u8>),
    /// Read a machine state from the path and hand it to
    /// `Repl::replace_machine`.
    LoadMachine(Vec<u8>),
    /// The machine cannot carry this out: it would read or jump past the
    /// last address, overflow or underflow its stack, or draw a sprite from
    /// past the end of memory. The session cannot go on.
    Fault,
}

/// A command in the history, and whether it was entered at the prompt
/// (rather than run by the machine on its own).
#[derive(Debug)]
pub struct HistoryEntry {
    pub command: Command,
    pub entered: bool,
}

/// An interactive session: a machine, the program image loaded into it,
/// whether it runs on its own, the last error and what was run so far.
#[derive(Debug)]
pub struct Repl {
    pub machine: Machine,
    pub running: bool,
    pub rom: Option<Rom>,
    pub error: Option<Error>,
    pub skip_unknown_opcode: bool,
    pub history: Vec<HistoryEntry>,
}

/// A session as mathematical values.
pub struct ReplModel {
    pub machine: MachineModel,
    pub running: bool,
    pub rom: Option<Rom>,
    pub error: Option<Error>,
    pub skip_unknown_opcode: bool,
    pub history: Seq<(CommandModel, bool)>,
}

impl View for Repl {
    type V = ReplModel;

    open spec fn view(&self) -> ReplModel {
        ReplModel {
            machine: self.machine@,
            running: self.running,
            rom: self.rom,
            error: self.error,
            skip_unknown_opcode: self.skip_unknown_opcode,
            history: self.history@.map_values(|e: HistoryEntry| (e.command@, e.entered)),
        }
    }
}

/// The machine state after a reset to `state`.
pub open spec fn reset_spec(key_buffer: Option<u8>, state: Option<MachineState>) -> MachineModel {
    match state {
        None => initial_state(key_buffer),
        Some(MachineState::Demo) => demo_spec(initial_state(key_buffer)),
    }
}

/// The machine after the memory cells of a loaded image, as far as they lie
/// inside memory, are cleared.
pub open spec fn unload_spec(m: MachineModel, rom: Option<Rom>) -> MachineModel {
    match rom {
        Some(r) => {
            let start = r.loaded_at->Some_0 as int;
            let end = start + r.bytes@.len();
            MachineModel {
                memory: Seq::new(config::MEMORY_SIZE as nat, |k: int|
                    if start <= k < end { 0u8 } else { m.memory[k] }),
                ..m
            }
        },
        None => m,
    }
}

/// Whether fetching and running the next instruction would fault.
pub open spec fn tick_faults(m: MachineModel) -> bool {
    m.program_counter.0 + 1 >= 0x1000 || (current_instruction(m) is Some && !tick_pre(m))
}

/// What one machine cycle does to a session: the next instruction goes into
/// the history, entered by no one, and runs. A word that is no instruction
/// is an `InvalidOpCode` error, with nothing changed. Only the machine and
/// the history change.
pub open spec fn tick_effect(before: ReplModel, after: ReplModel, res: Result<Request>) -> bool {
    let m = before.machine;
    &&& after.running == before.running
    &&& after.rom == before.rom
    &&& after.error == before.error
    &&& after.skip_unknown_opcode == before.skip_unknown_opcode
    &&& if tick_faults(m) {
        res matches Ok(Request::Fault) && after.machine == m && after.history == before.history
    } else {
        match current_instruction(m) {
            None => {
                &&& res == Err::<Request, Error>(
                    Error::InvalidOpCode(OpCode(Word(m.word_at(m.program_counter.0 as int)))))
                &&& after.machine == m
                &&& after.history == before.history
            },
            Some(i) => {
                &&& after.machine == tick_spec(m).0
                &&& after.history == before.history.push((CommandModel::Instruction(i), false))
                &&& match tick_spec(m).1 {
                    Ok(()) => res matches Ok(Request::Nothing),
                    Err(e) => res == Err::<Request, Error>(e),
                }
            },
        }
    }
}

/// The session `before` with only its machine, running flag and image
/// changed.
pub open spec fn with_machine(before: ReplModel, machine: MachineModel, running: bool, rom: Option<Rom>) -> ReplModel {
    ReplModel { machine, running, rom, ..before }
}

/// What a meta command does to a session, and what it returns.
pub open spec fn meta_effect(before: ReplModel, after: ReplModel, command: MetaCommandModel, res: Result<Request>) -> bool {
    match command {
        MetaCommandModel::Reset(state) => {
            &&& after == with_machine(before, reset_spec(before.machine.key_buffer, state), false, before.rom)
            &&& res matches Ok(Request::Nothing)
        },
        MetaCommandModel::LoadRom(path, address) => {
            &&& after == before
            &&& res matches Ok(Request::ReadRom(p, a)) && p@ == path
                && a == (match address { Some(a) => a, None => Address(0x200) })
        },
        MetaCommandModel::UnloadRom => {
            &&& after == with_machine(before, unload_spec(before.machine, before.rom), false, None)
            &&& res matches Ok(Request::Nothing)
        },
        MetaCommandModel::DumpMachine(path) => {
            &&& after == before
            &&& res matches Ok(Request::DumpMachine(p)) && p@ == path
        },
        MetaCommandModel::LoadMachine(path) => {
            &&& after == before
            &&& res matches Ok(Request::LoadMachine(p)) && p@ == path
        },
        MetaCommandModel::Tick => tick_effect(ReplModel { running: false, ..before }, after, res),
        MetaCommandModel::Play => {
            &&& after == ReplModel { running: true, ..before }
            &&& res matches Ok(Request::Nothing)
        },
        MetaCommandModel::Pause => {
            &&& after == ReplModel { running: false, ..before }
            &&& res matches Ok(Request::Nothing)
        },
        MetaCommandModel::PlayPause => {
            &&& after == ReplModel { running: !before.running, ..before }
            &&& res matches Ok(Request::Nothing)
        },
    }
}

/// What a command entered at the prompt does to a session, and what it
/// returns. An instruction stops the session and executes on the machine;
/// what the execution returns is not looked at. An instruction the machine
/// would fault on changes nothing else and asks for a stop.
pub open spec fn command_effect(before: ReplModel, after: ReplModel, command: CommandModel, res: Result<Request>) -> bool {
    match command {
        CommandModel::Instruction(i) => if execute_pre(before.machine, i) {
            &&& after == with_machine(before, execute_spec(before.machine, i).0, false, before.rom)
            &&& res matches Ok(Request::Nothing)
        } else {
            &&& after == ReplModel { running: false, ..before }
            &&& res matches Ok(Request::Fault)
        },
        CommandModel::Meta(m) => meta_effect(before, after, m, res),
    }
}

/// What a frame does to a session that runs and whose frame time is up:
/// one machine cycle. An error stops the session and becomes its error; a
/// word that is no instruction is stepped over, and the session goes on,
/// where the session skips those. A cycle without error clears the error.
pub open spec fn frame_effect(before: ReplModel, after: ReplModel, req: Request) -> bool {
    if tick_faults(before.machine) {
        after == before && req is Fault
    } else {
        exists|ticked: ReplModel, res: Result<Request>| #[trigger] tick_effect(before, ticked, res) && {
            match res {
                Ok(_) => after == ReplModel { error: None, ..ticked } && req is Nothing,
                Err(e) => {
                    let stopped = ReplModel { error: Some(e), running: false, ..ticked };
                    if e is InvalidOpCode && before.skip_unknown_opcode {
                        if ticked.machine.program_counter.0 + 2 < 0x1000 {
                            &&& after == ReplModel {
                                machine: MachineModel {
                                    program_counter: Address((ticked.machine.program_counter.0 + 2) as u16),
                                    ..ticked.machine
                                },
                                running: true,
                                ..stopped
                            }
                            &&& req is Nothing
                        } else {
                            after == stopped && req is Fault
                        }
                    } else {
                        after == stopped && req is Nothing
                    }
                },
            }
        }
    }
}

/// The session with a command added to its history as entered by the user.
pub open spec fn recorded_entry(before: ReplModel, command: CommandModel) -> ReplModel {
    ReplModel { history: before.history.push((command, true)), ..before }
}

/// The session with its error replaced.
pub open spec fn with_error(s: ReplModel, error: Option<Error>) -> ReplModel {
    ReplModel { error, ..s }
}

/// What entering a command does: it goes into the history as entered by the
/// user and is carried out as `command_effect` says; an error it fails with
/// becomes the session's error, and nothing is asked.
pub open spec fn enter_effect(before: ReplModel, after: ReplModel, command: CommandModel, req: Request) -> bool {
    exists|res: Result<Request>|
        #[trigger] command_effect(recorded_entry(before, command), with_error(after, before.error), command, res)
        && match res {
            Ok(r) => after.error == before.error && req == r,
            Err(e) => after.error == Some(e) && req is Nothing,
        }
}

impl Repl {
    /// The machine is well-formed, and a loaded image starts inside memory.
    pub open spec fn wf(&self) -> bool {
        &&& self.machine.wf()
        &&& self.rom matches Some(r) ==> r.loaded_at matches Some(start) && start < config::MEMORY_SIZE
    }

    /// A session with a new machine, stopped, with nothing loaded.
    pub fn new() -> (r: Repl)
        ensures
            r.wf(),
            r@.machine == initial_state(None),
            !r@.running,
            r@.rom is None,
            r@.error is None,
            !r@.skip_unknown_opcode,
            r@.history.len() == 0,
    {
        let r = Repl {
            machine: Machine::new(),
            running: false,
            rom: None,
            error: None,
            skip_unknown_opcode: false,
            history: Vec::new(),
        };
        assert(r@.history =~= Seq::<(CommandModel, bool)>::empty());
        r
    }

    /// Carries out a command entered at the prompt; see `command_effect`.
    pub fn execute(&mut self, command: &Command) -> (res: Result<Request>)
        requires
            old(self).wf(),
            command.wf(),
        ensures
            final(self).wf(),
            command_effect(old(self)@, final(self)@, command@, res),
    {
        match command {
            Command::Instruction(instruction) => {
                self.running = false;
                if !self.machine.execute_allowed(instruction) {
                    return Ok(Request::Fault);
                }
                let _ = self.machine.execute(instruction);
                Ok(Request::Nothing)
            },
            Command::Meta(meta) => self.execute_meta(meta),
        }
    }

    /// Carries out a meta command; see `meta_effect`.
    pub fn execute_meta(&mut self, command: &MetaCommand) -> (res: Result<Request>)
        requires
            old(self).wf(),
            command.wf(),
        ensures
            final(self).wf(),
            meta_effect(old(self)@, final(self)@, command@, res),
    {
        match command {
            MetaCommand::Reset(state) => {
                self.running = false;
                self.machine.reset();
                if let Some(state) = state {
                    match state {
                        MachineState::Demo => {
                            let _ = self.machine.demo();
                        },
                    }
                }
                Ok(Request::Nothing)
            },
            MetaCommand::LoadRom(path, address) => {
                let address = match address {
                    Some(a) => *a,
                    None => Address(0x200),
                };
                Ok(Request::ReadRom(copy_bytes(path), address))
            },
            MetaCommand::UnloadRom => {
                self.running = false;
                self.unload_current_rom();
                Ok(Request::Nothing)
            },
            MetaCommand::DumpMachine(path) => Ok(Request::DumpMachine(copy_bytes(path))),
            MetaCommand::LoadMachine(path) => Ok(Request::LoadMachine(copy_bytes(path))),
            MetaCommand::Tick => {
                self.running = false;
                self.tick()
            },
            MetaCommand::Play => {
                self.running = true;
                Ok(Request::Nothing)
            },
            MetaCommand::Pause => {
                self.running = false;
                Ok(Request::Nothing)
            },
            MetaCommand::PlayPause => {
                self.running = !self.running;
                Ok(Request::Nothing)
            },
        }
    }

    /// Clears the memory of the loaded image, if there is one, and forgets
    /// the image.
    fn unload_current_rom(&mut self)
        requires
            old(self).wf(),
        ensures
            final(self).wf(),
            final(self)@ == with_machine(old(self)@, unload_spec(old(self)@.machine, old(self)@.rom),
                old(self)@.running, None),
    {
        let previous = self.rom.take();
        if let Some(mut rom) = previous {
            self.machine.unload_rom(&mut rom);
        }
    }

    /// Finishes `:load`: stops the session, unloads the image loaded before
    /// and loads `rom` at `address` (what does not fit in memory is left
    /// out), pointing the program counter at it.
    pub fn load_rom(&mut self, rom: Rom, address: Address)
        requires
            old(self).wf(),
            rom.loaded_at is None,
            address.wf(),
        ensures
            final(self).wf(),
            ({
                let cleared = unload_spec(old(self)@.machine, old(self)@.rom);
                let loaded = MachineModel {
                    memory: load_spec(cleared.memory, address.0 as int, rom.bytes@),
                    program_counter: address,
                    ..cleared
                };
                &&& final(self)@ == with_machine(old(self)@, loaded, false, final(self)@.rom)
                &&& final(self)@.rom matches Some(r) && r.bytes@ == rom.bytes@ && r.name@ == rom.name@
                    && r.loaded_at == Some(address.0 as usize)
            }),
    {
        self.running = false;
        self.unload_current_rom();
        let mut rom = rom;
        self.machine.load_rom(&mut rom, Some(&address));
        self.rom = Some(rom);
    }

    /// Replaces the machine by one read from outside, if it is well-formed;
    /// returns whether it was.
    pub fn replace_machine(&mut self, machine: Machine) -> (replaced: bool)
        requires
            old(self).wf(),
        ensures
            final(self).wf(),
            replaced == machine.wf(),
            replaced ==> final(self)@ == with_machine(old(self)@, machine@, old(self)@.running, old(self)@.rom),
            !replaced ==> final(self)@ == old(self)@,
    {
        if machine.is_valid() {
            self.machine = machine;
            true
        } else {
            false
        }
    }

    /// One machine cycle, recorded in the history; see `tick_effect`.
    pub fn tick(&mut self) -> (res: Result<Request>)
        requires
            old(self).wf(),
        ensures
            final(self).wf(),
            tick_effect(old(self)@, final(self)@, res),
    {
        if self.machine.program_counter.value() + 1 >= 0x1000 {
            return Ok(Request::Fault);
        }
        let instruction = self.machine.next_instruction()?;
        if !self.machine.can_tick() {
            return Ok(Request::Fault);
        }
        let ghost before = self@;
        self.history.push(HistoryEntry { command: Command::Instruction(instruction), entered: false });
        assert(self@.history =~= before.history.push((CommandModel::Instruction(instruction), false)));
        self.machine.tick()?;
        Ok(Request::Nothing)
    }

    /// A command entered at the prompt goes into the history, entered by the
    /// user, and is carried out (see `command_effect`); an error it fails
    /// with becomes the session's error, and nothing is asked.
    pub fn enter(&mut self, command: Command) -> (req: Request)
        requires
            old(self).wf(),
            command.wf(),
        ensures
            final(self).wf(),
            enter_effect(old(self)@, final(self)@, command@, req),
    {
        let copy = command.duplicate();
        let ghost before = self@;
        self.history.push(HistoryEntry { command, entered: true });
        let ghost recorded = self@;
        assert(recorded.history =~= before.history.push((copy@, true)));
        let res = self.execute(&copy);
        let ghost executed = self@;
        match res {
            Ok(req) => {
                assert(command_effect(recorded_entry(before, copy@), with_error(self@, before.error), copy@, Ok(req)));
                req
            },
            Err(e) => {
                self.error = Some(e);
                assert(with_error(self@, before.error) == executed);
                assert(command_effect(recorded_entry(before, copy@), with_error(self@, before.error), copy@, Err(e)));
                Request::Nothing
            },
        }
    }

    /// The timed part of a frame: where the session runs and its frame time
    /// is up, one machine cycle; see `frame_effect`. Otherwise nothing
    /// happens.
    pub fn frame(&mut self, elapsed: bool) -> (req: Request)
        requires
            old(self).wf(),
        ensures
            final(self).wf(),
            old(self).running && elapsed ==> frame_effect(old(self)@, final(self)@, req),
            !(old(self).running && elapsed) ==> final(self)@ == old(self)@ && req is Nothing,
    {
        if !(self.running && elapsed) {
            return Request::Nothing;
        }
        let ghost before = self@;
        let res = self.tick();
        let ghost ticked = self@;
        match res {
            Ok(Request::Fault) => Request::Fault,
            Ok(_) => {
                self.error = None;
                Request::Nothing
            },
            Err(e) => {
                let invalid = match e {
                    Error::InvalidOpCode(_) => true,
                    _ => false,
                };
                self.error = Some(e);
                self.running = false;
                if invalid && self.skip_unknown_opcode {
                    if self.machine.program_counter.value() + 2 < 0x1000 {
                        self.machine.program_counter.advance(2);
                        self.running = true;
                        Request::Nothing
                    } else {
                        Request::Fault
                    }
                } else {
                    Request::Nothing
                }
            },
        }
    }
}

fn copy_bytes(v: &Vec<u8>) -> (w: Vec<u8>)
    ensures
        w@ == v@,
{
    let mut w: Vec<u8> = Vec::new();
    let mut i: usize = 0;
    while i < v.len()
        invariant
            i <= v@.len(),
            w@ == v@.subrange(0, i as int),
        decreases v@.len() - i,
    {
        w.push(v[i]);
        i = i + 1;
        assert(w@ =~= v@.subrange(0, i as int));
    }
    w
}

/// Play-pause twice leaves the session as it was.
pub proof fn lemma_play_pause_twice(s0: ReplModel, s1: ReplModel, s2: ReplModel, r1: Result<Request>, r2: Result<Request>)
    requires
        meta_effect(s0, s1, MetaCommandModel::PlayPause, r1),
        meta_effect(s1, s2, MetaCommandModel::PlayPause, r2),
    ensures
        s2 == s0,
{
}

/// A command never rewrites the history: it is kept, and at most the
/// instruction of one machine cycle is added to it.
pub proof fn lemma_command_keeps_history(before: ReplModel, after: ReplModel, command: CommandModel, res: Result<Request>)
    requires
        command_effect(before, after, command, res),
    ensures
        after.history == before.history || (after.history.len() == before.history.len() + 1
            && after.history.subrange(0, before.history.len() as int) == before.history
            && !after.history.last().1),
{
    if after.history != before.history {
        assert(after.history.subrange(0, before.history.len() as int) =~= before.history);
    }
}

/// Entering a command records it right after the history so far, as entered
/// by the user, and keeps what was recorded before.
pub proof fn lemma_enter_records_command(before: ReplModel, after: ReplModel, command: CommandModel, req: Request)
    requires
        enter_effect(before, after, command, req),
    ensures
        after.history.len() > before.history.len(),
        after.history.subrange(0, before.history.len() as int) == before.history,
        after.history[before.history.len() as int] == (command, true),
{
    let res = choose|res: Result<Request>|
        #[trigger] command_effect(recorded_entry(before, command), with_error(after, before.error), command, res)
        && match res {
            Ok(r) => after.error == before.error && req == r,
            Err(e) => after.error == Some(e) && req is Nothing,
        };
    let recorded = recorded_entry(before, command);
    lemma_command_keeps_history(recorded, with_error(after, before.error), command, res);
    assert(after.history.subrange(0, before.history.len() as int) =~= before.history);
    assert(after.history[before.history.len() as int] == recorded.history[before.history.len() as int]);
}

} // verus!
