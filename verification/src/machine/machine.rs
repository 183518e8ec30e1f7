use vstd::prelude::*;

use crate::errors::{Error, Result};
use crate::ui::Rom;

use super::config;
use super::instruction::op_code::{decode_result, decode_spec, encode_result, OpCode};
use super::instruction::args::{IndexOpArgs, JumpArgs, RegisterArgs};
use super::types::{Nibble, Register};
use super::draw_options::{
    drawn_pixel, grid_index, lemma_draw_twice_restores, lemma_drawn_pixel, lemma_grid_index_bound,
    pow2_table, DrawOptions,
};
use super::instruction::args::{BinaryOp, BinaryOpArgs, DrawArgs, IndexOp, IndexSource, Source, Target, Timer as TimerKind};
use super::instruction::{Flow, Graphics, Instruction};
use super::stack::Stack;
use super::types::{Address, Word};
use super::types::Timer as TimerValue;

verus! {

/// The whole state of the virtual machine.
#[derive(Debug)]
pub struct Machine {
    pub registers: Vec<u8>,
    pub stack: Stack,
    pub memory: Vec<u8>,
    pub display: Vec<u8>,
    pub program_counter: Address,
    pub index: Address,
    pub delay_timer: TimerValue,
    pub sound_timer: TimerValue,
    pub key_buffer: Option<u8>,
}

/// The machine state as mathematical values.
pub struct MachineModel {
    pub registers: Seq<u8>,
    pub stack: Seq<Address>,
    pub memory: Seq<u8>,
    pub display: Seq<u8>,
    pub program_counter: Address,
    pub index: Address,
    pub delay_timer: u8,
    pub sound_timer: u8,
    pub key_buffer: Option<u8>,
}

impl View for Machine {
    type V = MachineModel;

    open spec fn view(&self) -> MachineModel {
        MachineModel {
            registers: self.registers@,
            stack: self.stack.addresses(),
            memory: self.memory@,
            display: self.display@,
            program_counter: self.program_counter,
            index: self.index,
            delay_timer: self.delay_timer,
            sound_timer: self.sound_timer,
            key_buffer: self.key_buffer,
        }
    }
}

impl MachineModel {
    /// Sixteen registers, all of memory, a full display, a call stack of at
    /// most sixteen well-formed addresses and well-formed address registers.
    pub open spec fn wf(self) -> bool {
        &&& self.registers.len() == config::NUM_REGISTERS
        &&& self.memory.len() == config::MEMORY_SIZE
        &&& self.display.len() == config::DISPLAY_SIZE
        &&& self.stack.len() <= config::STACK_SIZE
        &&& forall|i: int| 0 <= i < self.stack.len() ==> (#[trigger] self.stack[i]).wf()
        &&& self.program_counter.wf()
        &&& self.index.wf()
    }

    /// The byte stored at `address`.
    pub open spec fn byte_at(self, address: int) -> u8 {
        self.memory[address]
    }

    /// The big-endian word stored at `address` and the address after it.
    pub open spec fn word_at(self, address: int) -> u16 {
        (self.memory[address] as int * 0x100 + self.memory[address + 1] as int) as u16
    }
}

/// Memory as it is when the machine starts: zero, except for the font.
pub open spec fn initial_memory() -> Seq<u8> {
    Seq::new(config::MEMORY_SIZE as nat, |k: int|
        if config::FONT_START <= k < config::FONT_END {
            config::font_glyphs()[k - config::FONT_START]
        } else {
            0u8
        })
}

/// The state in which a new machine starts, apart from the key buffer.
pub open spec fn is_initial(m: MachineModel) -> bool {
    &&& m.registers == Seq::new(config::NUM_REGISTERS as nat, |i: int| 0u8)
    &&& m.stack == Seq::<Address>::empty()
    &&& m.memory == initial_memory()
    &&& m.display == Seq::new(config::DISPLAY_SIZE as nat, |i: int| 0u8)
    &&& m.program_counter == Address(0)
    &&& m.index == Address(0)
    &&& m.delay_timer == 0
    &&& m.sound_timer == 0
}

/// The state of a new machine whose key buffer holds `key_buffer`.
pub open spec fn initial_state(key_buffer: Option<u8>) -> MachineModel {
    MachineModel {
        registers: Seq::new(config::NUM_REGISTERS as nat, |i: int| 0u8),
        stack: Seq::empty(),
        memory: initial_memory(),
        display: Seq::new(config::DISPLAY_SIZE as nat, |i: int| 0u8),
        program_counter: Address(0),
        index: Address(0),
        delay_timer: 0,
        sound_timer: 0,
        key_buffer,
    }
}

/// Memory after `data` is copied in at `offset`; what does not fit below the
/// end of memory is left out.
pub open spec fn load_spec(memory: Seq<u8>, offset: int, data: Seq<u8>) -> Seq<u8> {
    Seq::new(memory.len(), |k: int|
        if offset <= k < offset + data.len() { data[k - offset] } else { memory[k] })
}

/// The value an operand reads.
pub open spec fn source_value(m: MachineModel, source: Source) -> u8 {
    match source {
        Source::Byte(b) => b.0,
        Source::Register(r) => m.registers[r.id() as int],
        Source::Timer(TimerKind::Delay) => m.delay_timer,
        Source::Timer(TimerKind::Sound) => m.sound_timer,
    }
}

/// The value a result location holds.
pub open spec fn target_value(m: MachineModel, target: Target) -> u8 {
    match target {
        Target::Register(r) => m.registers[r.id() as int],
        Target::Timer(TimerKind::Delay) => m.delay_timer,
        Target::Timer(TimerKind::Sound) => m.sound_timer,
    }
}

/// The machine with `value` written to a result location.
pub open spec fn set_target(m: MachineModel, target: Target, value: u8) -> MachineModel {
    match target {
        Target::Register(r) => MachineModel { registers: m.registers.update(r.id() as int, value), ..m },
        Target::Timer(TimerKind::Delay) => MachineModel { delay_timer: value, ..m },
        Target::Timer(TimerKind::Sound) => MachineModel { sound_timer: value, ..m },
    }
}

/// The sprite rows a draw instruction reads: `height` bytes from the index
/// register on.
pub open spec fn sprite_rows(m: MachineModel, height: int) -> Seq<u8> {
    m.memory.subrange(m.index.0 as int, m.index.0 + height)
}

/// The display after a draw instruction: the sprite is drawn at the
/// coordinates held in `VX` and `VY`, taken modulo the display size.
pub open spec fn draw_display(m: MachineModel, args: DrawArgs) -> Seq<u8> {
    let x = m.registers[args.x.id() as int] as int % config::DISPLAY_WIDTH as int;
    let y = m.registers[args.y.id() as int] as int % config::DISPLAY_HEIGHT as int;
    let rows = sprite_rows(m, args.height.0 as int);
    Seq::new(config::DISPLAY_SIZE as nat, |k: int|
        drawn_pixel(m.display, rows, x, y, config::DISPLAY_WIDTH as int,
            config::DISPLAY_HEIGHT as int, k % config::DISPLAY_WIDTH as int,
            k / config::DISPLAY_WIDTH as int))
}

/// What an instruction needs of the machine state to run without a fault:
/// a draw reads its sprite inside memory, a call has room on the stack, a
/// return has an address to return to, and waiting for a key with none
/// pressed can move the program counter back to the waiting instruction.
pub open spec fn execute_pre(m: MachineModel, i: Instruction) -> bool {
    match i {
        Instruction::Graphics(Graphics::Draw { args }) =>
            m.index.0 + args.height.0 <= config::MEMORY_SIZE,
        Instruction::Flow(Flow::Call { .. }) => m.stack.len() < config::STACK_SIZE,
        Instruction::Flow(Flow::Return) => m.stack.len() > 0,
        Instruction::KeyAwait { .. } => m.key_buffer is None ==> m.program_counter.0 >= 2,
        _ => true,
    }
}

/// The effect of an arithmetic instruction. Additions wrap around; after
/// one, `VF` holds 1 where `Add` carried and 0 otherwise.
pub open spec fn arithmetic_spec(m: MachineModel, i: Instruction, args: BinaryOpArgs)
    -> (MachineModel, Result<()>)
{
    let source = source_value(m, args.source);
    match args.op {
        BinaryOp::Assign => (set_target(m, args.target, source), Ok(())),
        BinaryOp::Add | BinaryOp::AddWrapping => {
            let sum = target_value(m, args.target) as int + source as int;
            let written = set_target(m, args.target, (sum % 0x100) as u8);
            let flag: u8 = if sum >= 0x100 && args.op == BinaryOp::Add { 1 } else { 0 };
            (MachineModel { registers: written.registers.update(0xF, flag), ..written }, Ok(()))
        },
        _ => (m, Err(Error::UnsupportedInstruction(i))),
    }
}

/// The state after executing an instruction, and its result. `exit` stops
/// the machine with `MachineExit`; instructions the machine has no
/// behaviour for leave the state unchanged and fail with
/// `UnsupportedInstruction`.
pub open spec fn execute_spec(m: MachineModel, i: Instruction) -> (MachineModel, Result<()>) {
    match i {
        Instruction::Exit => (m, Err(Error::MachineExit)),
        Instruction::Graphics(Graphics::Clear) => (
            MachineModel { display: Seq::new(config::DISPLAY_SIZE as nat, |k: int| 0u8), ..m },
            Ok(()),
        ),
        Instruction::Graphics(Graphics::Draw { args }) => (
            MachineModel { display: draw_display(m, args), ..m },
            Ok(()),
        ),
        Instruction::Flow(Flow::Jump { args }) => (
            MachineModel { program_counter: args.address, ..m },
            Ok(()),
        ),
        Instruction::Flow(Flow::Call { args }) => (
            MachineModel { stack: m.stack.push(m.program_counter), program_counter: args.address, ..m },
            Ok(()),
        ),
        Instruction::Flow(Flow::Return) => (
            MachineModel { stack: m.stack.drop_last(), program_counter: m.stack.last(), ..m },
            Ok(()),
        ),
        Instruction::Index { args } => match (args.op, args.source) {
            (IndexOp::Assign, IndexSource::Value(a)) => (MachineModel { index: a, ..m }, Ok(())),
            _ => (m, Err(Error::UnsupportedInstruction(i))),
        },
        Instruction::Arithmetic { args } => arithmetic_spec(m, i, args),
        Instruction::Font { args } => {
            let digit = m.registers[args.register.id() as int] as int % 0x10;
            (
                MachineModel {
                    index: Address((config::FONT_START + config::FONT_SPRITE_HEIGHT * digit) as u16),
                    ..m
                },
                Ok(()),
            )
        },
        Instruction::KeyAwait { args } => match m.key_buffer {
            Some(key) => (
                MachineModel { registers: m.registers.update(args.register.id() as int, key), ..m },
                Ok(()),
            ),
            None => (
                MachineModel { program_counter: Address((m.program_counter.0 - 2) as u16), ..m },
                Ok(()),
            ),
        },
        _ => (m, Err(Error::UnsupportedInstruction(i))),
    }
}

/// The state in which the instruction at `m`'s program counter executes:
/// both timers count down by one unless they are already zero, and the
/// program counter has moved on to the next instruction.
pub open spec fn advanced(m: MachineModel) -> MachineModel {
    MachineModel {
        sound_timer: if m.sound_timer > 0 { (m.sound_timer - 1) as u8 } else { 0 },
        delay_timer: if m.delay_timer > 0 { (m.delay_timer - 1) as u8 } else { 0 },
        program_counter: Address((m.program_counter.0 + 2) as u16),
        ..m
    }
}

/// The instruction at `m`'s program counter, if the word there decodes.
pub open spec fn current_instruction(m: MachineModel) -> Option<Instruction> {
    decode_spec(m.word_at(m.program_counter.0 as int))
}

/// What a machine cycle needs to run without a fault: both bytes of the
/// instruction and the next program counter are twelve-bit addresses, the
/// word decodes, and the instruction can execute.
pub open spec fn tick_pre(m: MachineModel) -> bool {
    &&& m.program_counter.0 + 2 < 0x1000
    &&& current_instruction(m) matches Some(i) && execute_pre(advanced(m), i)
}

/// The state after one machine cycle, and its result.
pub open spec fn tick_spec(m: MachineModel) -> (MachineModel, Result<()>) {
    execute_spec(advanced(m), current_instruction(m)->Some_0)
}

/// Assigning register `VY` to register `VX` copies the old value of `VY`
/// into `VX` and changes nothing else: every other register (`VY` among
/// them, where it is another register), the timers, memory, display, stack
/// and address registers keep their values.
pub proof fn lemma_assign_register_to_register(m: MachineModel, x: Register, y: Register)
    requires
        m.wf(),
        x.wf(),
        y.wf(),
    ensures
        ({
            let i = Instruction::Arithmetic { args: BinaryOpArgs {
                target: Target::Register(x),
                source: Source::Register(y),
                op: BinaryOp::Assign,
            } };
            let (after, res) = execute_spec(m, i);
            &&& res == Ok::<(), Error>(())
            &&& after.registers.len() == m.registers.len()
            &&& after.registers[x.0.0 as int] == m.registers[y.0.0 as int]
            &&& forall|k: int| 0 <= k < m.registers.len() && k != x.0.0 ==>
                #[trigger] after.registers[k] == m.registers[k]
            &&& after.delay_timer == m.delay_timer
            &&& after.sound_timer == m.sound_timer
            &&& after.memory == m.memory
            &&& after.display == m.display
            &&& after.stack == m.stack
            &&& after.program_counter == m.program_counter
            &&& after.index == m.index
            &&& after.key_buffer == m.key_buffer
        }),
{
}

/// An assignment writes the value of its operand (the byte itself, a
/// register's value or a timer's value) to its result location (a register
/// or a timer) and changes nothing else.
pub proof fn lemma_assign(m: MachineModel, target: Target, source: Source)
    requires
        m.wf(),
        target.wf(),
        source.wf(),
    ensures
        ({
            let i = Instruction::Arithmetic { args: BinaryOpArgs { target, source, op: BinaryOp::Assign } };
            let (after, res) = execute_spec(m, i);
            let v: u8 = match source {
                Source::Byte(b) => b.0,
                Source::Register(r) => m.registers[r.0.0 as int],
                Source::Timer(TimerKind::Delay) => m.delay_timer,
                Source::Timer(TimerKind::Sound) => m.sound_timer,
            };
            &&& res == Ok::<(), Error>(())
            &&& after.memory == m.memory
            &&& after.display == m.display
            &&& after.stack == m.stack
            &&& after.program_counter == m.program_counter
            &&& after.index == m.index
            &&& match target {
                Target::Register(r) => {
                    &&& after.registers == m.registers.update(r.0.0 as int, v)
                    &&& after.delay_timer == m.delay_timer
                    &&& after.sound_timer == m.sound_timer
                },
                Target::Timer(TimerKind::Delay) => {
                    &&& after.delay_timer == v
                    &&& after.registers == m.registers
                    &&& after.sound_timer == m.sound_timer
                },
                Target::Timer(TimerKind::Sound) => {
                    &&& after.sound_timer == v
                    &&& after.registers == m.registers
                    &&& after.delay_timer == m.delay_timer
                },
            }
        }),
{
}

/// Adding register `VY` to register `VX` stores the sum modulo 256 in `VX`
/// and then sets `VF` to 1 where the sum reached 256 (for `+=`; always 0 for
/// the wrapping `+~`); nothing else changes.
pub proof fn lemma_add_registers(m: MachineModel, x: Register, y: Register, op: BinaryOp)
    requires
        m.wf(),
        x.wf(),
        y.wf(),
        op == BinaryOp::Add || op == BinaryOp::AddWrapping,
    ensures
        ({
            let i = Instruction::Arithmetic { args: BinaryOpArgs {
                target: Target::Register(x),
                source: Source::Register(y),
                op,
            } };
            let (after, res) = execute_spec(m, i);
            let a = m.registers[x.0.0 as int] as int;
            let b = m.registers[y.0.0 as int] as int;
            let carry: u8 = if op == BinaryOp::Add && a + b > 255 { 1 } else { 0 };
            &&& res == Ok::<(), Error>(())
            &&& after.registers == m.registers.update(x.0.0 as int, (a + b - (if a + b > 255 { 256int } else { 0 })) as u8)
                .update(15, carry)
            &&& after.delay_timer == m.delay_timer
            &&& after.sound_timer == m.sound_timer
            &&& after.memory == m.memory
            &&& after.display == m.display
            &&& after.stack == m.stack
            &&& after.program_counter == m.program_counter
            &&& after.index == m.index
        }),
{
    let a = m.registers[x.0.0 as int] as int;
    let b = m.registers[y.0.0 as int] as int;
    assert((a + b) % 0x100 == a + b - (if a + b > 255 { 256int } else { 0 }));
}

/// A draw instruction XORs 0xFF into each display byte under a set bit of
/// the sprite: the `N` bytes from the index register on, drawn with its top
/// left corner at (`VX` mod 64, `VY` mod 32), each byte a row of eight
/// pixels, most significant bit leftmost, cut off at the display's edges.
/// Only the display changes.
pub proof fn lemma_draw_instruction(m: MachineModel, args: DrawArgs, i: int, j: int)
    requires
        m.wf(),
        args.wf(),
        0 <= i < 64,
        0 <= j < 32,
        m.index.0 + args.height.0 <= config::MEMORY_SIZE,
    ensures
        ({
            let (after, res) = execute_spec(m, Instruction::Graphics(Graphics::Draw { args }));
            let x = m.registers[args.x.0.0 as int] as int % 64;
            let y = m.registers[args.y.0.0 as int] as int % 32;
            let under = x <= i < x + 8 && y <= j < y + args.height.0;
            let row = m.memory[m.index.0 + (j - y)];
            let shifted: u8 = ((row as int * pow2_table(i - x)) % 256) as u8;
            &&& res == Ok::<(), Error>(())
            &&& after.display.len() == 2048
            &&& after.display[i + 64 * j] == if under && shifted >= 0x80 {
                m.display[i + 64 * j] ^ 0xFFu8
            } else {
                m.display[i + 64 * j]
            }
            &&& after == (MachineModel { display: after.display, ..m })
        }),
{
    let (after, res) = execute_spec(m, Instruction::Graphics(Graphics::Draw { args }));
    let x = m.registers[args.x.0.0 as int] as int % 64;
    let y = m.registers[args.y.0.0 as int] as int % 32;
    let rows = sprite_rows(m, args.height.0 as int);
    let k = i + 64 * j;
    assert(k % 64 == i && k / 64 == j);
    lemma_drawn_pixel(m.display, rows, x, y, 64, 32, i, j);
    assert(grid_index(64, i, j) == k);
    assert(rows.len() == args.height.0);
    if y <= j < y + args.height.0 {
        assert(rows[j - y] == m.memory[m.index.0 + (j - y)]);
    }
    assert(after.display[k] == drawn_pixel(m.display, rows, x, y, 64, 32, i, j));
}

/// The effects of the other instructions: `clear` blanks the display; a
/// jump sets the program counter; a call pushes the program counter and
/// jumps; a return pops it back; `VI = NNN` sets the index register; `font
/// VX` points it at 0x50 + 5 times the low digit of `VX`; `key await VX`
/// stores the pressed key in `VX`, or with none pressed moves the program
/// counter back two bytes; `exit` stops with `MachineExit` and changes
/// nothing.
pub proof fn lemma_instruction_effects(m: MachineModel, address: Address, r: Register)
    requires
        m.wf(),
        address.wf(),
        r.wf(),
    ensures
        ({
            let jump = JumpArgs { address, register: None };
            let x = r.0.0 as int;
            &&& execute_spec(m, Instruction::Graphics(Graphics::Clear)) == ((MachineModel {
                display: Seq::new(2048, |k: int| 0u8), ..m }), Ok::<(), Error>(()))
            &&& execute_spec(m, Instruction::Flow(Flow::Jump { args: jump })) == ((MachineModel {
                program_counter: address, ..m }), Ok::<(), Error>(()))
            &&& execute_spec(m, Instruction::Flow(Flow::Call { args: jump })) == ((MachineModel {
                program_counter: address, stack: m.stack.push(m.program_counter), ..m }), Ok::<(), Error>(()))
            &&& (m.stack.len() > 0 ==> execute_spec(m, Instruction::Flow(Flow::Return)) == ((MachineModel {
                program_counter: m.stack[m.stack.len() - 1], stack: m.stack.subrange(0, m.stack.len() - 1), ..m }),
                Ok::<(), Error>(())))
            &&& execute_spec(m, Instruction::Index { args: IndexOpArgs {
                source: IndexSource::Value(address), op: IndexOp::Assign } })
                == ((MachineModel { index: address, ..m }), Ok::<(), Error>(()))
            &&& execute_spec(m, Instruction::Font { args: RegisterArgs { register: r } }).0
                == (MachineModel { index: Address((0x50 + 5 * (m.registers[x] as int % 16)) as u16), ..m })
            &&& (m.key_buffer matches Some(key) ==>
                execute_spec(m, Instruction::KeyAwait { args: RegisterArgs { register: r } }).0
                    == (MachineModel { registers: m.registers.update(x, key), ..m }))
            &&& (m.key_buffer is None ==>
                execute_spec(m, Instruction::KeyAwait { args: RegisterArgs { register: r } }).0
                    == (MachineModel { program_counter: Address((m.program_counter.0 - 2) as u16), ..m }))
            &&& execute_spec(m, Instruction::Exit) == (m, Err::<(), Error>(Error::MachineExit))
        }),
{
    if m.stack.len() > 0 {
        assert(m.stack.drop_last() =~= m.stack.subrange(0, m.stack.len() - 1));
    }
}

/// A machine cycle counts the timers down (those above zero), moves the
/// program counter two bytes on, and then executes the instruction that was
/// at the program counter: the state and result are those of that execution.
pub proof fn lemma_tick_is_advance_then_execute(m: MachineModel, i: Instruction)
    requires
        tick_pre(m),
        current_instruction(m) == Some(i),
    ensures
        tick_spec(m) == execute_spec(advanced(m), i),
        advanced(m).sound_timer == (if m.sound_timer > 0 { m.sound_timer - 1 } else { 0 }),
        advanced(m).delay_timer == (if m.delay_timer > 0 { m.delay_timer - 1 } else { 0 }),
        advanced(m).program_counter.0 == m.program_counter.0 + 2,
        advanced(m) == (MachineModel {
            sound_timer: advanced(m).sound_timer,
            delay_timer: advanced(m).delay_timer,
            program_counter: advanced(m).program_counter,
            ..m
        }),
{
}

/// The state the demonstration sets up.
pub open spec fn demo_spec(m: MachineModel) -> MachineModel {
    MachineModel {
        program_counter: Address(1000),
        memory: m.memory.update(1000, 0xE0).update(0xAAA, 0x00).update(0xAAB, 0xE0)
            .update(0xBBB, 0xF3).update(0xBBC, 0x29),
        stack: m.stack.push(Address(0xAAA)).push(Address(0xBBB)),
        registers: m.registers.update(0, 0x12).update(1, 0xAB),
        delay_timer: 0xF,
        sound_timer: 1,
        display: m.display.update(1000, 0xFF),
        ..m
    }
}

/// Writes `value` into every cell of `v` from `start` up to `end`.
fn fill_range(v: &mut Vec<u8>, start: usize, end: usize, value: u8)
    requires
        start <= end <= old(v)@.len(),
    ensures
        final(v)@ == Seq::new(old(v)@.len(), |k: int|
            if start <= k < end { value } else { old(v)@[k] }),
{
    let mut i = start;
    while i < end
        invariant
            start <= i <= end <= v@.len(),
            v@.len() == old(v)@.len(),
            forall|k: int| 0 <= k < v@.len() ==> (#[trigger] v@[k]) ==
                if start <= k < i { value } else { old(v)@[k] },
        decreases end - i,
    {
        v.set(i, value);
        i = i + 1;
    }
    assert(v@ =~= Seq::new(old(v)@.len(), |k: int| if start <= k < end { value } else { old(v)@[k] }));
}

/// Copies `data` into `v` from `offset` on; `data` must fit.
fn copy_into(v: &mut Vec<u8>, offset: usize, data: &[u8])
    requires
        offset + data@.len() <= old(v)@.len(),
    ensures
        final(v)@ == load_spec(old(v)@, offset as int, data@),
{
    let vlen = v.len();
    let mut i: usize = 0;
    while i < data.len()
        invariant
            vlen == v@.len(),
            offset + data@.len() <= v@.len(),
            i <= data@.len(),
            v@.len() == old(v)@.len(),
            forall|k: int| 0 <= k < v@.len() ==> (#[trigger] v@[k]) ==
                if offset <= k < offset + i { data@[k - offset] } else { old(v)@[k] },
        decreases data@.len() - i,
    {
        v.set(offset + i, data[i]);
        i = i + 1;
    }
    assert(v@ =~= load_spec(old(v)@, offset as int, data@));
}

impl Machine {
    pub open spec fn wf(&self) -> bool {
        &&& self@.wf()
        &&& self.stack.wf()
    }

    /// A machine with cleared memory holding the font, a blank display and
    /// every register zero.
    pub fn new() -> (m: Self)
        ensures
            m.wf(),
            is_initial(m@),
            m@ == initial_state(None),
    {
        let mut memory: Vec<u8> = vec![0u8; config::MEMORY_SIZE];
        let font = config::font_glyphs_exec();
        copy_into(&mut memory, config::FONT_START, font.as_slice());
        let display: Vec<u8> = vec![0u8; config::DISPLAY_SIZE];
        let registers: Vec<u8> = vec![0u8; config::NUM_REGISTERS];
        let machine = Self {
            memory,
            stack: Stack::new(),
            display,
            program_counter: Address::new(),
            index: Address::new(),
            delay_timer: 0,
            sound_timer: 0,
            registers,
            key_buffer: None,
        };
        assert(machine@.memory =~= initial_memory());
        assert(machine@.registers =~= Seq::new(config::NUM_REGISTERS as nat, |i: int| 0u8));
        assert(machine@.display =~= Seq::new(config::DISPLAY_SIZE as nat, |i: int| 0u8));
        machine
    }

    /// Puts the machine back into the state of a new machine; the key
    /// buffer is kept.
    pub fn reset(&mut self)
        requires
            old(self).wf(),
        ensures
            final(self).wf(),
            is_initial(final(self)@),
            final(self)@ == initial_state(old(self).key_buffer),
    {
        let len = self.memory.len();
        fill_range(&mut self.memory, 0, len, 0);
        self.stack.reset();
        let len = self.display.len();
        fill_range(&mut self.display, 0, len, 0);
        self.program_counter = Address::new();
        self.index = Address::new();
        self.delay_timer = 0;
        self.sound_timer = 0;
        let len = self.registers.len();
        fill_range(&mut self.registers, 0, len, 0);
        let font = config::font_glyphs_exec();
        copy_into(&mut self.memory, config::FONT_START, font.as_slice());
        assert(self@.memory =~= initial_memory());
        assert(self@.registers =~= Seq::new(config::NUM_REGISTERS as nat, |i: int| 0u8));
        assert(self@.display =~= Seq::new(config::DISPLAY_SIZE as nat, |i: int| 0u8));
    }

    /// Copies `data` into memory from `offset` on, dropping whatever would
    /// lie past the end of memory.
    pub fn load(&mut self, offset: &Address, data: &[u8])
        requires
            old(self).wf(),
            offset.wf(),
        ensures
            final(self).wf(),
            final(self)@ == (MachineModel {
                memory: load_spec(old(self)@.memory, offset.0 as int, data@),
                ..old(self)@
            }),
    {
        let offset = offset.as_index();
        let available = self.memory.len() - offset;
        let length = if data.len() > available { available } else { data.len() };
        let fitting = &data[0..length];
        copy_into(&mut self.memory, offset, fitting);
        assert(load_spec(old(self)@.memory, offset as int, fitting@)
            =~= load_spec(old(self)@.memory, offset as int, data@));
    }

    /// Loads a program image at `address`, or at 0x200 where none is given,
    /// records where it went and points the program counter at it.
    pub fn load_rom(&mut self, rom: &mut Rom, address: Option<&Address>)
        requires
            old(self).wf(),
            old(rom).loaded_at is None,
            address matches Some(a) ==> a.wf(),
        ensures
            final(self).wf(),
            ({
                let start = match address { Some(a) => *a, None => Address(0x200) };
                &&& final(rom).loaded_at == Some(start.0 as usize)
                &&& final(rom).bytes@ == old(rom).bytes@
                &&& final(rom).name@ == old(rom).name@
                &&& final(self)@ == (MachineModel {
                    memory: load_spec(old(self)@.memory, start.0 as int, old(rom).bytes@),
                    program_counter: start,
                    ..old(self)@
                })
            }),
    {
        let default_load_address = Address(0x200);
        let address = match address {
            Some(a) => a,
            None => &default_load_address,
        };
        rom.loaded_at = Some(address.as_index());
        self.load(address, rom.bytes.as_slice());
        self.program_counter = *address;
    }

    /// Clears the memory that a loaded program image occupies (as much of it
    /// as lies inside memory) and marks the image as no longer loaded; the
    /// program counter stays where it is.
    pub fn unload_rom(&mut self, rom: &mut Rom)
        requires
            old(self).wf(),
            old(rom).loaded_at matches Some(start) && start <= config::MEMORY_SIZE,
        ensures
            final(self).wf(),
            final(rom).loaded_at is None,
            final(rom).bytes@ == old(rom).bytes@,
            final(rom).name@ == old(rom).name@,
            ({
                let start = old(rom).loaded_at->Some_0 as int;
                let end = start + old(rom).bytes@.len();
                final(self)@ == (MachineModel {
                    memory: Seq::new(config::MEMORY_SIZE as nat, |k: int|
                        if start <= k < end { 0u8 } else { old(self)@.memory[k] }),
                    ..old(self)@
                })
            }),
    {
        match rom.loaded_at {
            Some(start) => {
                let available = self.memory.len() - start;
                let end = if rom.bytes.len() > available { self.memory.len() } else { start + rom.bytes.len() };
                fill_range(&mut self.memory, start, end, 0);
                assert(self@.memory =~= Seq::new(config::MEMORY_SIZE as nat, |k: int|
                    if start <= k < start + old(rom).bytes@.len() { 0u8 } else { old(self)@.memory[k] }));
            },
            None => {},
        }
        rom.loaded_at = None;
    }

    /// The byte at `address`.
    pub fn byte_at_address(&self, address: &Address) -> (b: Option<u8>)
        requires
            self.wf(),
            address.wf(),
        ensures
            b == Some(self@.byte_at(address.0 as int)),
    {
        Some(self.memory[address.as_index()])
    }

    /// The word that starts at `address`, most significant byte first. The
    /// second byte must lie at a twelve-bit address as well.
    pub fn word_at_address(&self, address: &Address) -> (w: Option<u16>)
        requires
            self.wf(),
            address.0 + 1 < 0x1000,
        ensures
            w == Some(self@.word_at(address.0 as int)),
    {
        let mut next_address = *address;
        next_address.advance(1);
        let high = self.byte_at_address(address);
        let low = self.byte_at_address(&next_address);
        match (high, low) {
            (Some(high), Some(low)) => Some(high as u16 * 0x100 + low as u16),
            _ => None,
        }
    }

    /// Decodes the word that starts at `address`.
    pub fn instruction_at_address(&self, address: &Address) -> (res: Result<Instruction>)
        requires
            self.wf(),
            address.0 + 1 < 0x1000,
        ensures
            res == decode_result(OpCode(Word(self@.word_at(address.0 as int)))),
            res matches Ok(i) ==> i.wf(),
    {
        let word = match self.word_at_address(address) {
            Some(w) => w,
            None => 0,
        };
        Instruction::try_from_opcode(OpCode(Word(word)))
    }

    /// Stores the encoding of `instruction` at `address`.
    fn set_instruction_at_address(&mut self, address: &Address, instruction: &Instruction) -> (res: Result<()>)
        requires
            old(self).wf(),
            address.0 + 2 <= config::MEMORY_SIZE,
            instruction.wf(),
        ensures
            final(self).wf(),
            match encode_result(*instruction) {
                Ok(opcode) => res is Ok && final(self)@ == (MachineModel {
                    memory: old(self)@.memory
                        .update(address.0 as int, (opcode.0.0 / 0x100) as u8)
                        .update(address.0 + 1, (opcode.0.0 % 0x100) as u8),
                    ..old(self)@
                }),
                Err(e) => res == Err::<(), Error>(e) && final(self)@ == old(self)@,
            },
    {
        let opcode = OpCode::try_from_instruction(instruction)?;
        let bytes = opcode.bytes();
        let start = address.as_index();
        self.memory.set(start, bytes[0]);
        self.memory.set(start + 1, bytes[1]);
        Ok(())
    }

    /// The word the program counter points at.
    pub fn at_program_counter(&self) -> (w: Option<u16>)
        requires
            self.wf(),
            self.program_counter.0 + 1 < 0x1000,
        ensures
            w == Some(self@.word_at(self.program_counter.0 as int)),
    {
        self.word_at_address(&self.program_counter)
    }

    /// The instruction the program counter points at.
    pub fn next_instruction(&self) -> (res: Result<Instruction>)
        requires
            self.wf(),
            self.program_counter.0 + 1 < 0x1000,
        ensures
            res == decode_result(OpCode(Word(self@.word_at(self.program_counter.0 as int)))),
            res matches Ok(i) ==> i.wf(),
    {
        self.instruction_at_address(&self.program_counter)
    }

    /// The byte the index register points at.
    pub fn at_index(&self) -> (b: Option<u8>)
        requires
            self.wf(),
        ensures
            b == Some(self@.byte_at(self.index.0 as int)),
    {
        self.byte_at_address(&self.index)
    }

    /// Executes one instruction; see `execute_spec` for its effect.
    pub fn execute(&mut self, instruction: &Instruction) -> (res: Result<()>)
        requires
            old(self).wf(),
            instruction.wf(),
            execute_pre(old(self)@, *instruction),
        ensures
            final(self).wf(),
            final(self)@ == execute_spec(old(self)@, *instruction).0,
            res == execute_spec(old(self)@, *instruction).1,
    {
        let unsupported = Err(Error::UnsupportedInstruction(*instruction));
        match instruction {
            Instruction::Exit => {
                return Err(Error::MachineExit);
            },
            Instruction::Graphics(graphics) => match graphics {
                Graphics::Clear => {
                    let len = self.display.len();
                    fill_range(&mut self.display, 0, len, 0);
                    assert(self@.display =~= Seq::new(config::DISPLAY_SIZE as nat, |k: int| 0u8));
                },
                Graphics::Draw { args } => {
                    self.draw(args);
                },
            },
            Instruction::Flow(flow) => match flow {
                Flow::Jump { args } => {
                    self.program_counter = args.address;
                },
                Flow::Call { args } => {
                    self.stack.push(self.program_counter);
                    self.program_counter = args.address;
                },
                Flow::Return => {
                    self.program_counter = self.stack.pop();
                },
                Flow::Sys { .. } | Flow::Branch { .. } => {
                    return unsupported;
                },
            },
            Instruction::Index { args } => match (args.op, args.source) {
                (IndexOp::Assign, IndexSource::Value(address)) => {
                    self.index = address;
                },
                _ => {
                    return unsupported;
                },
            },
            Instruction::Arithmetic { args } => {
                return self.arithmetic(instruction, args);
            },
            Instruction::Font { args } => {
                let digit = self.registers[args.register.as_index()] as usize % 0x10;
                let index = config::FONT_START + config::FONT_SPRITE_HEIGHT * digit;
                self.index = Address(index as u16);
            },
            Instruction::KeyAwait { args } => {
                match self.key_buffer {
                    Some(key) => {
                        self.registers.set(args.register.as_index(), key);
                    },
                    None => {
                        self.program_counter.step_back();
                    },
                }
            },
            Instruction::BinaryCodedDecimal { .. } => {
                return unsupported;
            },
        }
        Ok(())
    }

    /// Draws the sprite of a draw instruction onto the display.
    fn draw(&mut self, args: &DrawArgs)
        requires
            old(self).wf(),
            args.wf(),
            old(self)@.index.0 + args.height.0 <= config::MEMORY_SIZE,
        ensures
            final(self).wf(),
            final(self)@ == (MachineModel { display: draw_display(old(self)@, *args), ..old(self)@ }),
    {
        let x = self.registers[args.x.as_index()] as usize % config::DISPLAY_WIDTH;
        let y = self.registers[args.y.as_index()] as usize % config::DISPLAY_HEIGHT;
        let index_start = self.index.as_index();
        let index_end = index_start + args.height.value() as usize;
        let sprite = &self.memory.as_slice()[index_start..index_end];
        let options = DrawOptions::new(sprite, [config::DISPLAY_WIDTH, config::DISPLAY_HEIGHT]).at([x, y]);
        let _pixel_off = options.draw(&mut self.display);
        proof {
            let w = config::DISPLAY_WIDTH as int;
            assert forall|k: int| 0 <= k < config::DISPLAY_SIZE implies
                self.display@[k] == #[trigger] draw_display(old(self)@, *args)[k] by {
                let i = k % w;
                let j = k / w;
                assert(grid_index(w, i, j) == k);
                assert(0 <= i < w && 0 <= j < config::DISPLAY_HEIGHT);
            }
            assert(self@.display =~= draw_display(old(self)@, *args));
        }
    }

    /// Executes an arithmetic instruction.
    fn arithmetic(&mut self, instruction: &Instruction, args: &BinaryOpArgs) -> (res: Result<()>)
        requires
            old(self).wf(),
            args.wf(),
            *instruction == (Instruction::Arithmetic { args: *args }),
        ensures
            final(self).wf(),
            final(self)@ == arithmetic_spec(old(self)@, *instruction, *args).0,
            res == arithmetic_spec(old(self)@, *instruction, *args).1,
    {
        let source: u8 = match args.source {
            Source::Byte(x) => x.value(),
            Source::Register(r) => self.registers[r.as_index()],
            Source::Timer(TimerKind::Delay) => self.delay_timer,
            Source::Timer(TimerKind::Sound) => self.sound_timer,
        };
        let result: u8 = match args.op {
            BinaryOp::Assign => source,
            BinaryOp::Add | BinaryOp::AddWrapping => {
                let target: u8 = match args.target {
                    Target::Register(r) => self.registers[r.as_index()],
                    Target::Timer(TimerKind::Delay) => self.delay_timer,
                    Target::Timer(TimerKind::Sound) => self.sound_timer,
                };
                ((target as u16 + source as u16) % 0x100) as u8
            },
            _ => {
                return Err(Error::UnsupportedInstruction(*instruction));
            },
        };
        let ghost before_flag = self@;
        let carry: bool = match args.op {
            BinaryOp::Add | BinaryOp::AddWrapping => {
                let target: u8 = match args.target {
                    Target::Register(r) => self.registers[r.as_index()],
                    Target::Timer(TimerKind::Delay) => self.delay_timer,
                    Target::Timer(TimerKind::Sound) => self.sound_timer,
                };
                target as u16 + source as u16 >= 0x100
            },
            _ => false,
        };
        match args.target {
            Target::Register(r) => {
                self.registers.set(r.as_index(), result);
            },
            Target::Timer(TimerKind::Delay) => {
                self.delay_timer = result;
            },
            Target::Timer(TimerKind::Sound) => {
                self.sound_timer = result;
            },
        }
        match args.op {
            BinaryOp::Add | BinaryOp::AddWrapping => {
                let flag: u8 = if carry && args.op == BinaryOp::Add { 1 } else { 0 };
                self.registers.set(0xF, flag);
            },
            _ => {},
        }
        Ok(())
    }

    /// Whether `instruction` can execute in the current state without a
    /// fault.
    pub fn execute_allowed(&self, instruction: &Instruction) -> (b: bool)
        requires
            self.wf(),
        ensures
            b == execute_pre(self@, *instruction),
    {
        match instruction {
            Instruction::Graphics(Graphics::Draw { args }) =>
                self.index.as_index() + args.height.value() as usize <= config::MEMORY_SIZE,
            Instruction::Flow(Flow::Call { .. }) => self.stack.pointer < config::STACK_SIZE,
            Instruction::Flow(Flow::Return) => self.stack.pointer > 0,
            Instruction::KeyAwait { .. } => self.key_buffer.is_some() || self.program_counter.value() >= 2,
            _ => true,
        }
    }

    /// Whether a machine cycle can run without a fault.
    pub fn can_tick(&self) -> (b: bool)
        requires
            self.wf(),
        ensures
            b == tick_pre(self@),
    {
        if self.program_counter.value() + 2 >= 0x1000 {
            return false;
        }
        match self.next_instruction() {
            Ok(instruction) => match instruction {
                Instruction::Graphics(Graphics::Draw { args }) =>
                    self.index.as_index() + args.height.value() as usize <= config::MEMORY_SIZE,
                Instruction::Flow(Flow::Call { .. }) => self.stack.pointer < config::STACK_SIZE,
                Instruction::Flow(Flow::Return) => self.stack.pointer > 0,
                _ => true,
            },
            Err(_) => false,
        }
    }

    /// One machine cycle: fetches the instruction at the program counter,
    /// counts the timers down, moves the program counter on and executes the
    /// instruction.
    pub fn tick(&mut self) -> (res: Result<()>)
        requires
            old(self).wf(),
            tick_pre(old(self)@),
        ensures
            final(self).wf(),
            final(self)@ == tick_spec(old(self)@).0,
            res == tick_spec(old(self)@).1,
    {
        let instruction = match self.next_instruction() {
            Ok(instruction) => instruction,
            Err(_) => {
                assert(false);
                return Err(Error::MachineExit);
            },
        };
        self.sound_timer = self.sound_timer - if self.sound_timer > 0 { 1 } else { 0 };
        self.delay_timer = self.delay_timer - if self.delay_timer > 0 { 1 } else { 0 };
        self.program_counter.step();
        assert(self@ == advanced(old(self)@));
        self.execute(&instruction)?;
        Ok(())
    }

    /// Whether the machine is well-formed: the check to make on a machine
    /// state that was read from outside.
    pub fn is_valid(&self) -> (b: bool)
        ensures
            b == self.wf(),
    {
        if self.registers.len() != config::NUM_REGISTERS || self.memory.len() != config::MEMORY_SIZE
            || self.display.len() != config::DISPLAY_SIZE || self.stack.data.len() != config::STACK_SIZE
            || self.stack.pointer > config::STACK_SIZE || self.program_counter.value() >= 0x1000
            || self.index.value() >= 0x1000 {
            return false;
        }
        let mut i: usize = 0;
        while i < config::STACK_SIZE
            invariant
                self.stack.data@.len() == config::STACK_SIZE,
                self.stack.pointer <= config::STACK_SIZE,
                i <= config::STACK_SIZE,
                forall|k: int| 0 <= k < i && k < self.stack.pointer ==>
                    ((#[trigger] self.stack.data@[k]) matches Some(a) && a.wf()),
                forall|k: int| self.stack.pointer <= k < i ==> (#[trigger] self.stack.data@[k]) is None,
            decreases config::STACK_SIZE - i,
        {
            let occupied = i < self.stack.pointer;
            match self.stack.data[i] {
                Some(a) => {
                    if !occupied || a.value() >= 0x1000 {
                        return false;
                    }
                },
                None => {
                    if occupied {
                        return false;
                    }
                },
            }
            i = i + 1;
        }
        proof {
            assert forall|k: int| 0 <= k < self@.stack.len() implies (#[trigger] self@.stack[k]).wf() by {
                assert(self.stack.data@[k] matches Some(a) && a.wf());
            }
        }
        true
    }

    /// Sets up a state to show off: a few registers, timers, pixels, stack
    /// entries and instructions in memory.
    pub fn demo(&mut self) -> (res: Result<()>)
        requires
            old(self).wf(),
            old(self)@.stack.len() + 2 <= config::STACK_SIZE,
        ensures
            final(self).wf(),
            res is Ok,
            final(self)@ == demo_spec(old(self)@),
    {
        self.program_counter = Address(1000);
        self.memory.set(1000, 0xE0);
        self.stack.push(Address(0xAAA));
        self.stack.push(Address(0xBBB));
        let clear = Instruction::Graphics(Graphics::Clear);
        self.set_instruction_at_address(&Address(0xAAA), &clear)?;
        let font = Instruction::Font { args: RegisterArgs { register: Register(Nibble(3)) } };
        self.set_instruction_at_address(&Address(0xBBB), &font)?;
        self.registers.set(0, 0x12);
        self.registers.set(1, 0xAB);
        self.delay_timer = 0xF;
        self.sound_timer = 1;
        self.display.set(1000, 0xFF);
        assert(self@.memory =~= demo_spec(old(self)@).memory);
        Ok(())
    }
}

/// Whatever `load_spec` copies in can be read back at its place, and every
/// other memory cell keeps its value.
pub proof fn lemma_load_read_back(memory: Seq<u8>, offset: int, data: Seq<u8>, k: int)
    requires
        0 <= offset <= memory.len(),
        0 <= k < memory.len(),
    ensures
        load_spec(memory, offset, data).len() == memory.len(),
        offset <= k < offset + data.len() ==> load_spec(memory, offset, data)[k] == data[k - offset],
        !(offset <= k < offset + data.len()) ==> load_spec(memory, offset, data)[k] == memory[k],
{
}

/// Two states that are both initial agree everywhere but in the key
/// buffer; so a reset machine is in the state of a new machine.
pub proof fn lemma_initial_states_agree(a: MachineModel, b: MachineModel)
    requires
        is_initial(a),
        is_initial(b),
        a.key_buffer == b.key_buffer,
    ensures
        a == b,
{
}

/// Executing the same draw instruction twice leaves the machine as it was:
/// the second sprite erases the first.
pub proof fn lemma_draw_twice_restores_machine(m: MachineModel, args: DrawArgs)
    requires
        m.wf(),
        args.wf(),
    ensures
        ({
            let draw = Instruction::Graphics(Graphics::Draw { args });
            execute_spec(execute_spec(m, draw).0, draw).0 == m
        }),
{
    let draw = Instruction::Graphics(Graphics::Draw { args });
    let mid = execute_spec(m, draw).0;
    let after = execute_spec(mid, draw).0;
    let w = config::DISPLAY_WIDTH as int;
    let h = config::DISPLAY_HEIGHT as int;
    let x = m.registers[args.x.id() as int] as int % w;
    let y = m.registers[args.y.id() as int] as int % h;
    let rows = sprite_rows(m, args.height.0 as int);
    assert(sprite_rows(mid, args.height.0 as int) == rows);
    assert forall|i: int, j: int| 0 <= i < w && 0 <= j < h implies
        (#[trigger] mid.display[grid_index(w, i, j)]) == drawn_pixel(m.display, rows, x, y, w, h, i, j) by {
        lemma_grid_index_bound(w, h, i, j);
        let k = grid_index(w, i, j);
        assert(k % w == i && k / w == j);
    }
    assert forall|i: int, j: int| 0 <= i < w && 0 <= j < h implies
        (#[trigger] after.display[grid_index(w, i, j)]) == drawn_pixel(mid.display, rows, x, y, w, h, i, j) by {
        lemma_grid_index_bound(w, h, i, j);
        let k = grid_index(w, i, j);
        assert(k % w == i && k / w == j);
    }
    lemma_draw_twice_restores(m.display, mid.display, after.display, rows, x, y, w, h);
    assert forall|k: int| 0 <= k < config::DISPLAY_SIZE implies after.display[k] == m.display[k] by {
        let i = k % w;
        let j = k / w;
        assert(grid_index(w, i, j) == k);
        assert(after.display[grid_index(w, i, j)] == m.display[grid_index(w, i, j)]);
    }
    assert(after.display =~= m.display);
}

/// A call followed by a return comes back to the instruction after the
/// call with the stack as it was.
pub proof fn lemma_call_then_return(m: MachineModel, args: JumpArgs)
    ensures
        ({
            let called = execute_spec(m, Instruction::Flow(Flow::Call { args })).0;
            let returned = execute_spec(called, Instruction::Flow(Flow::Return)).0;
            &&& returned.program_counter == m.program_counter
            &&& returned.stack == m.stack
            &&& returned == m
        }),
{
    assert(m.stack.push(m.program_counter).drop_last() =~= m.stack);
}

/// The font instruction points the index register at the five-row sprite of
/// the low hexadecimal digit of the register, inside the font area.
pub proof fn lemma_font_sprite_in_font_area(m: MachineModel, args: RegisterArgs)
    requires
        m.wf(),
        args.wf(),
    ensures
        ({
            let after = execute_spec(m, Instruction::Font { args }).0;
            &&& config::FONT_START <= after.index.0
            &&& after.index.0 + config::FONT_SPRITE_HEIGHT <= config::FONT_END
        }),
{
}

} // verus!
