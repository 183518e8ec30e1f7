use vstd::prelude::*;

use crate::command::{MachineState, MetaCommand, MetaCommandModel, Command, CommandModel};
use crate::machine::instruction::args::{
    BinaryOp, BranchArgs, Comparator, IndexOp, IndexSource, JumpArgs, RegisterArgs, Source, Target,
    Timer,
};
use crate::machine::instruction::op_code::OpCode;
use crate::machine::instruction::{Flow, Graphics, Instruction};
use crate::machine::types::{Address, Byte, Nibble, Register, Word};

use super::keyword::{keyword_bytes, keyword_text, Keyword};

verus! {

/// The upper-case hexadecimal digit of `v` (below 16).
pub open spec fn hex_digit(v: int) -> u8 {
    if v < 10 { ('0' as u8 + v) as u8 } else { ('A' as u8 + v - 10) as u8 }
}

/// The lowest `width` hexadecimal digits of `v`, most significant first.
pub open spec fn hex_digits(v: int, width: nat) -> Seq<u8>
    decreases width,
{
    if width == 0 {
        Seq::empty()
    } else {
        hex_digits(v / 16, (width - 1) as nat).push(hex_digit(v % 16))
    }
}

pub open spec fn hex_prefix() -> Seq<u8> {
    seq!['0' as u8, 'x' as u8]
}

/// `0x` and one digit.
pub open spec fn nibble_text(n: Nibble) -> Seq<u8> {
    hex_prefix() + hex_digits(n.0 as int, 1)
}

/// `0x` and one digit, or two where one does not do.
pub open spec fn byte_text(b: Byte) -> Seq<u8> {
    hex_prefix() + hex_digits(b.0 as int, if b.0 < 16 { 1 } else { 2 })
}

/// `0x` and three digits.
pub open spec fn address_text(a: Address) -> Seq<u8> {
    hex_prefix() + hex_digits(a.0 as int, 3)
}

/// `0x` and four digits.
pub open spec fn word_text(w: Word) -> Seq<u8> {
    hex_prefix() + hex_digits(w.0 as int, 4)
}

/// `V` and the register's digit.
pub open spec fn register_text(r: Register) -> Seq<u8> {
    seq!['V' as u8] + hex_digits(r.id() as int, 1)
}

/// `VT` for the delay timer, `VS` for the sound timer.
pub open spec fn timer_text(t: Timer) -> Seq<u8> {
    seq!['V' as u8] + keyword_text(if t == Timer::Delay { Keyword::DelayTimer } else { Keyword::SoundTimer })
}

pub open spec fn target_text(t: Target) -> Seq<u8> {
    match t {
        Target::Register(r) => register_text(r),
        Target::Timer(t) => timer_text(t),
    }
}

pub open spec fn source_text(s: Source) -> Seq<u8> {
    match s {
        Source::Byte(b) => byte_text(b),
        Source::Register(r) => register_text(r),
        Source::Timer(t) => timer_text(t),
    }
}

pub open spec fn binary_op_keyword(op: BinaryOp) -> Keyword {
    match op {
        BinaryOp::Assign => Keyword::Assign,
        BinaryOp::Add => Keyword::Add,
        BinaryOp::AddWrapping => Keyword::AddWrapping,
        BinaryOp::Subtract => Keyword::Subtract,
        BinaryOp::SubtractAlt => Keyword::SubtractAlt,
        BinaryOp::BitAnd => Keyword::BitAnd,
        BinaryOp::BitOr => Keyword::BitOr,
        BinaryOp::BitXor => Keyword::BitXor,
        BinaryOp::BitShiftLeft => Keyword::ShiftLeft,
        BinaryOp::BitShiftRight => Keyword::ShiftRight,
        BinaryOp::Random => Keyword::Random,
    }
}

pub open spec fn index_source_text(s: IndexSource) -> Seq<u8> {
    match s {
        IndexSource::Value(a) => address_text(a),
        IndexSource::Register(r) => register_text(r),
    }
}

pub open spec fn index_op_keyword(op: IndexOp) -> Keyword {
    match op {
        IndexOp::Assign => Keyword::Assign,
        IndexOp::Add => Keyword::Add,
    }
}

/// `address`, or `address register`.
pub open spec fn jump_words(args: JumpArgs) -> Seq<Seq<u8>> {
    match args.register {
        Some(r) => seq![address_text(args.address), register_text(r)],
        None => seq![address_text(args.address)],
    }
}

/// `lhs rhs`, and `!` for a comparison for inequality.
pub open spec fn branch_words(args: BranchArgs) -> Seq<Seq<u8>> {
    let operands = seq![source_text(args.lhs), source_text(args.rhs)];
    if args.comparator == Comparator::Equal { operands } else { operands.push(keyword_text(Keyword::Not)) }
}

pub open spec fn kw(k: Keyword) -> Seq<Seq<u8>> {
    seq![keyword_text(k)]
}

/// The words of an instruction's text.
pub open spec fn instruction_words(i: Instruction) -> Seq<Seq<u8>> {
    match i {
        Instruction::Exit => kw(Keyword::Exit),
        Instruction::Graphics(Graphics::Clear) => kw(Keyword::Graphics) + kw(Keyword::Clear),
        Instruction::Graphics(Graphics::Draw { args }) => kw(Keyword::Graphics) + kw(Keyword::Draw)
            + seq![register_text(args.x), register_text(args.y), nibble_text(args.height)],
        Instruction::Flow(Flow::Return) => kw(Keyword::Return),
        Instruction::Flow(Flow::Sys { args }) => kw(Keyword::Sys) + jump_words(args),
        Instruction::Flow(Flow::Jump { args }) => kw(Keyword::Jump) + jump_words(args),
        Instruction::Flow(Flow::Call { args }) => kw(Keyword::Call) + jump_words(args),
        Instruction::Flow(Flow::Branch { args }) => kw(Keyword::Branch) + branch_words(args),
        Instruction::Index { args } => seq![
            seq!['V' as u8] + keyword_text(Keyword::IndexRegister),
            keyword_text(index_op_keyword(args.op)),
            index_source_text(args.source),
        ],
        Instruction::Arithmetic { args } => seq![
            target_text(args.target),
            keyword_text(binary_op_keyword(args.op)),
            source_text(args.source),
        ],
        Instruction::Font { args } => kw(Keyword::Font) + seq![register_text(args.register)],
        Instruction::KeyAwait { args } => kw(Keyword::Key) + kw(Keyword::Await)
            + seq![register_text(args.register)],
        Instruction::BinaryCodedDecimal { args } => kw(Keyword::Bcd) + seq![register_text(args.register)],
    }
}

/// Words separated by single spaces.
pub open spec fn join_words(ws: Seq<Seq<u8>>) -> Seq<u8>
    decreases ws.len(),
{
    if ws.len() == 0 {
        Seq::empty()
    } else if ws.len() == 1 {
        ws[0]
    } else {
        join_words(ws.drop_last()) + seq![' ' as u8] + ws.last()
    }
}

/// An instruction's text.
pub open spec fn instruction_text(i: Instruction) -> Seq<u8> {
    join_words(instruction_words(i))
}

pub open spec fn machine_state_text(s: MachineState) -> Seq<u8> {
    match s {
        MachineState::Demo => keyword_text(Keyword::Demo),
    }
}

/// The words of a meta command's text. A reset to nothing keeps an empty
/// last word, so its text ends in a space.
pub open spec fn meta_command_words(m: MetaCommandModel) -> Seq<Seq<u8>> {
    match m {
        MetaCommandModel::Reset(state) => kw(Keyword::Reset) + seq![match state {
            Some(s) => machine_state_text(s),
            None => Seq::empty(),
        }],
        MetaCommandModel::LoadRom(path, address) => match address {
            Some(a) => kw(Keyword::LoadRom) + seq![path, address_text(a)],
            None => kw(Keyword::LoadRom) + seq![path],
        },
        MetaCommandModel::DumpMachine(path) => kw(Keyword::Dump) + seq![path],
        MetaCommandModel::LoadMachine(path) => kw(Keyword::LoadMachine) + seq![path],
        MetaCommandModel::UnloadRom => kw(Keyword::UnloadRom),
        MetaCommandModel::Tick => kw(Keyword::Tick),
        MetaCommandModel::Play => kw(Keyword::Play),
        MetaCommandModel::Pause => kw(Keyword::Pause),
        MetaCommandModel::PlayPause => kw(Keyword::PlayPause),
    }
}

pub open spec fn meta_command_text(m: MetaCommandModel) -> Seq<u8> {
    join_words(meta_command_words(m))
}

/// A command's text: that of its meta command or of its instruction.
pub open spec fn command_text(c: CommandModel) -> Seq<u8> {
    match c {
        CommandModel::Meta(m) => meta_command_text(m),
        CommandModel::Instruction(i) => instruction_text(i),
    }
}

fn hex_digit_exec(v: u16) -> (c: u8)
    requires
        v < 16,
    ensures
        c == hex_digit(v as int),
{
    if v < 10 { '0' as u8 + v as u8 } else { 'A' as u8 + (v as u8 - 10) }
}

fn hex_digits_exec(v: u16, width: u8) -> (out: Vec<u8>)
    ensures
        out@ == hex_digits(v as int, width as nat),
    decreases width,
{
    if width == 0 {
        Vec::new()
    } else {
        let mut out = hex_digits_exec(v / 16, width - 1);
        out.push(hex_digit_exec(v % 16));
        out
    }
}

fn append(out: &mut Vec<u8>, more: &Vec<u8>)
    ensures
        final(out)@ == old(out)@ + more@,
{
    let mut i: usize = 0;
    while i < more.len()
        invariant
            i <= more@.len(),
            out@ == old(out)@ + more@.subrange(0, i as int),
        decreases more@.len() - i,
    {
        out.push(more[i]);
        i = i + 1;
        assert(out@ =~= old(out)@ + more@.subrange(0, i as int));
    }
    assert(more@.subrange(0, more@.len() as int) =~= more@);
}

fn hex_text(v: u16, width: u8) -> (out: Vec<u8>)
    ensures
        out@ == hex_prefix() + hex_digits(v as int, width as nat),
{
    let mut out: Vec<u8> = vec!['0' as u8, 'x' as u8];
    assert(out@ =~= hex_prefix());
    let digits = hex_digits_exec(v, width);
    append(&mut out, &digits);
    out
}

impl Nibble {
    /// `0x` and the digit.
    pub fn to_text(&self) -> (t: Vec<u8>)
        ensures
            t@ == nibble_text(*self),
    {
        hex_text(self.0 as u16, 1)
    }
}

impl Byte {
    /// `0x` and one or two digits.
    pub fn to_text(&self) -> (t: Vec<u8>)
        ensures
            t@ == byte_text(*self),
    {
        hex_text(self.0 as u16, if self.0 < 16 { 1 } else { 2 })
    }
}

impl Address {
    /// `0x` and three digits.
    pub fn to_text(&self) -> (t: Vec<u8>)
        ensures
            t@ == address_text(*self),
    {
        hex_text(self.0, 3)
    }
}

impl Word {
    /// `0x` and four digits.
    pub fn to_text(&self) -> (t: Vec<u8>)
        ensures
            t@ == word_text(*self),
    {
        hex_text(self.0, 4)
    }
}

impl OpCode {
    /// The opcode as a word: `0x` and four digits.
    pub fn to_text(&self) -> (t: Vec<u8>)
        ensures
            t@ == word_text(self.0),
    {
        self.0.to_text()
    }
}

impl Register {
    /// `V` and the register's digit.
    pub fn to_text(&self) -> (t: Vec<u8>)
        ensures
            t@ == register_text(*self),
    {
        let mut out: Vec<u8> = vec!['V' as u8];
        let digits = hex_digits_exec(self.0.0 as u16, 1);
        append(&mut out, &digits);
        assert(out@ =~= register_text(*self));
        out
    }
}

impl Timer {
    /// `VT` or `VS`.
    pub fn to_text(&self) -> (t: Vec<u8>)
        ensures
            t@ == timer_text(*self),
    {
        let mut out: Vec<u8> = vec!['V' as u8];
        assert(out@ =~= seq!['V' as u8]);
        let name = keyword_bytes(match self {
            Timer::Delay => Keyword::DelayTimer,
            Timer::Sound => Keyword::SoundTimer,
        });
        append(&mut out, &name);
        out
    }
}

impl Target {
    pub fn to_text(&self) -> (t: Vec<u8>)
        ensures
            t@ == target_text(*self),
    {
        match self {
            Target::Register(r) => r.to_text(),
            Target::Timer(timer) => timer.to_text(),
        }
    }
}

impl Source {
    pub fn to_text(&self) -> (t: Vec<u8>)
        ensures
            t@ == source_text(*self),
    {
        match self {
            Source::Byte(b) => b.to_text(),
            Source::Register(r) => r.to_text(),
            Source::Timer(timer) => timer.to_text(),
        }
    }
}

impl BinaryOp {
    /// The operator: `=`, `+=`, `+~`, `-=`, `-~`, `&=`, `|=`, `^=`, `<<=`,
    /// `>>=` or `?=`.
    pub fn to_text(&self) -> (t: Vec<u8>)
        ensures
            t@ == keyword_text(binary_op_keyword(*self)),
    {
        keyword_bytes(match self {
            BinaryOp::Assign => Keyword::Assign,
            BinaryOp::Add => Keyword::Add,
            BinaryOp::AddWrapping => Keyword::AddWrapping,
            BinaryOp::Subtract => Keyword::Subtract,
            BinaryOp::SubtractAlt => Keyword::SubtractAlt,
            BinaryOp::BitAnd => Keyword::BitAnd,
            BinaryOp::BitOr => Keyword::BitOr,
            BinaryOp::BitXor => Keyword::BitXor,
            BinaryOp::BitShiftLeft => Keyword::ShiftLeft,
            BinaryOp::BitShiftRight => Keyword::ShiftRight,
            BinaryOp::Random => Keyword::Random,
        })
    }
}

impl IndexSource {
    pub fn to_text(&self) -> (t: Vec<u8>)
        ensures
            t@ == index_source_text(*self),
    {
        match self {
            IndexSource::Value(a) => a.to_text(),
            IndexSource::Register(r) => r.to_text(),
        }
    }
}

impl IndexOp {
    /// `=` or `+=`.
    pub fn to_text(&self) -> (t: Vec<u8>)
        ensures
            t@ == keyword_text(index_op_keyword(*self)),
    {
        keyword_bytes(match self {
            IndexOp::Assign => Keyword::Assign,
            IndexOp::Add => Keyword::Add,
        })
    }
}

impl RegisterArgs {
    pub fn to_text(&self) -> (t: Vec<u8>)
        ensures
            t@ == register_text(self.register),
    {
        self.register.to_text()
    }
}

fn join(words: &Vec<Vec<u8>>) -> (out: Vec<u8>)
    ensures
        out@ == join_words(words@.map_values(|w: Vec<u8>| w@)),
{
    let ghost ws = words@.map_values(|w: Vec<u8>| w@);
    let mut out: Vec<u8> = Vec::new();
    let mut i: usize = 0;
    while i < words.len()
        invariant
            i <= words@.len(),
            ws == words@.map_values(|w: Vec<u8>| w@),
            out@ == join_words(ws.subrange(0, i as int)),
        decreases words@.len() - i,
    {
        let ghost before = out@;
        if i > 0 {
            out.push(' ' as u8);
        }
        append(&mut out, &words[i]);
        proof {
            let next = ws.subrange(0, i as int + 1);
            assert(next.drop_last() =~= ws.subrange(0, i as int));
            assert(next.last() == words@[i as int]@);
            if i == 0 {
                assert(out@ =~= next[0]);
            } else {
                assert(out@ =~= join_words(next.drop_last()) + seq![' ' as u8] + next.last());
            }
        }
        i = i + 1;
    }
    assert(ws.subrange(0, words@.len() as int) =~= ws);
    out
}

fn single(word: Vec<u8>) -> (ws: Vec<Vec<u8>>)
    ensures
        ws@.map_values(|w: Vec<u8>| w@) == seq![word@],
{
    let mut ws: Vec<Vec<u8>> = Vec::new();
    ws.push(word);
    assert(ws@.map_values(|w: Vec<u8>| w@) =~= seq![word@]);
    ws
}

fn push_word(ws: &mut Vec<Vec<u8>>, word: Vec<u8>)
    ensures
        final(ws)@.map_values(|w: Vec<u8>| w@) == old(ws)@.map_values(|w: Vec<u8>| w@).push(word@),
{
    let ghost word_view = word@;
    ws.push(word);
    assert(ws@.map_values(|w: Vec<u8>| w@) =~= old(ws)@.map_values(|w: Vec<u8>| w@).push(word_view));
}

impl JumpArgs {
    fn push_words(&self, ws: &mut Vec<Vec<u8>>)
        ensures
            final(ws)@.map_values(|w: Vec<u8>| w@) == old(ws)@.map_values(|w: Vec<u8>| w@) + jump_words(*self),
    {
        push_word(ws, self.address.to_text());
        match self.register {
            Some(r) => push_word(ws, r.to_text()),
            None => {},
        }
        assert(ws@.map_values(|w: Vec<u8>| w@) =~= old(ws)@.map_values(|w: Vec<u8>| w@) + jump_words(*self));
    }

    /// `address`, or `address register`.
    pub fn to_text(&self) -> (t: Vec<u8>)
        ensures
            t@ == join_words(jump_words(*self)),
    {
        let mut ws: Vec<Vec<u8>> = Vec::new();
        self.push_words(&mut ws);
        assert(ws@.map_values(|w: Vec<u8>| w@) =~= jump_words(*self));
        join(&ws)
    }
}

impl BranchArgs {
    fn push_words(&self, ws: &mut Vec<Vec<u8>>)
        ensures
            final(ws)@.map_values(|w: Vec<u8>| w@) == old(ws)@.map_values(|w: Vec<u8>| w@) + branch_words(*self),
    {
        push_word(ws, self.lhs.to_text());
        push_word(ws, self.rhs.to_text());
        if self.comparator == Comparator::NotEqual {
            push_word(ws, keyword_bytes(Keyword::Not));
        }
        assert(ws@.map_values(|w: Vec<u8>| w@) =~= old(ws)@.map_values(|w: Vec<u8>| w@) + branch_words(*self));
    }

    /// `lhs rhs`, and `!` for a comparison for inequality.
    pub fn to_text(&self) -> (t: Vec<u8>)
        ensures
            t@ == join_words(branch_words(*self)),
    {
        let mut ws: Vec<Vec<u8>> = Vec::new();
        self.push_words(&mut ws);
        assert(ws@.map_values(|w: Vec<u8>| w@) =~= branch_words(*self));
        join(&ws)
    }
}

impl Instruction {
    /// The words of the instruction's text.
    pub fn to_words(&self) -> (ws: Vec<Vec<u8>>)
        ensures
            ws@.map_values(|w: Vec<u8>| w@) == instruction_words(*self),
    {
        let mut ws: Vec<Vec<u8>> = Vec::new();
        match self {
            Instruction::Exit => {
                push_word(&mut ws, keyword_bytes(Keyword::Exit));
                assert(ws@.map_values(|w: Vec<u8>| w@) =~= instruction_words(*self));
            },
            Instruction::Graphics(Graphics::Clear) => {
                push_word(&mut ws, keyword_bytes(Keyword::Graphics));
                push_word(&mut ws, keyword_bytes(Keyword::Clear));
                assert(ws@.map_values(|w: Vec<u8>| w@) =~= instruction_words(*self));
            },
            Instruction::Graphics(Graphics::Draw { args }) => {
                push_word(&mut ws, keyword_bytes(Keyword::Graphics));
                push_word(&mut ws, keyword_bytes(Keyword::Draw));
                push_word(&mut ws, args.x.to_text());
                push_word(&mut ws, args.y.to_text());
                push_word(&mut ws, args.height.to_text());
                assert(ws@.map_values(|w: Vec<u8>| w@) =~= instruction_words(*self));
            },
            Instruction::Flow(Flow::Return) => {
                push_word(&mut ws, keyword_bytes(Keyword::Return));
                assert(ws@.map_values(|w: Vec<u8>| w@) =~= instruction_words(*self));
            },
            Instruction::Flow(Flow::Sys { args }) => {
                push_word(&mut ws, keyword_bytes(Keyword::Sys));
                args.push_words(&mut ws);
                assert(ws@.map_values(|w: Vec<u8>| w@) =~= instruction_words(*self));
            },
            Instruction::Flow(Flow::Jump { args }) => {
                push_word(&mut ws, keyword_bytes(Keyword::Jump));
                args.push_words(&mut ws);
                assert(ws@.map_values(|w: Vec<u8>| w@) =~= instruction_words(*self));
            },
            Instruction::Flow(Flow::Call { args }) => {
                push_word(&mut ws, keyword_bytes(Keyword::Call));
                args.push_words(&mut ws);
                assert(ws@.map_values(|w: Vec<u8>| w@) =~= instruction_words(*self));
            },
            Instruction::Flow(Flow::Branch { args }) => {
                push_word(&mut ws, keyword_bytes(Keyword::Branch));
                args.push_words(&mut ws);
                assert(ws@.map_values(|w: Vec<u8>| w@) =~= instruction_words(*self));
            },
            Instruction::Index { args } => {
                let mut name: Vec<u8> = vec!['V' as u8];
                assert(name@ =~= seq!['V' as u8]);
                let index = keyword_bytes(Keyword::IndexRegister);
                append(&mut name, &index);
                push_word(&mut ws, name);
                push_word(&mut ws, args.op.to_text());
                push_word(&mut ws, args.source.to_text());
                assert(ws@.map_values(|w: Vec<u8>| w@) =~= instruction_words(*self));
            },
            Instruction::Arithmetic { args } => {
                push_word(&mut ws, args.target.to_text());
                push_word(&mut ws, args.op.to_text());
                push_word(&mut ws, args.source.to_text());
                assert(ws@.map_values(|w: Vec<u8>| w@) =~= instruction_words(*self));
            },
            Instruction::Font { args } => {
                push_word(&mut ws, keyword_bytes(Keyword::Font));
                push_word(&mut ws, args.to_text());
                assert(ws@.map_values(|w: Vec<u8>| w@) =~= instruction_words(*self));
            },
            Instruction::KeyAwait { args } => {
                push_word(&mut ws, keyword_bytes(Keyword::Key));
                push_word(&mut ws, keyword_bytes(Keyword::Await));
                push_word(&mut ws, args.to_text());
                assert(ws@.map_values(|w: Vec<u8>| w@) =~= instruction_words(*self));
            },
            Instruction::BinaryCodedDecimal { args } => {
                push_word(&mut ws, keyword_bytes(Keyword::Bcd));
                push_word(&mut ws, args.to_text());
                assert(ws@.map_values(|w: Vec<u8>| w@) =~= instruction_words(*self));
            },
        }
        assert(ws@.map_values(|w: Vec<u8>| w@) =~= instruction_words(*self));
        ws
    }

    /// The instruction in the assembler syntax that `Instruction::parse`
    /// reads.
    pub fn to_text(&self) -> (t: Vec<u8>)
        ensures
            t@ == instruction_text(*self),
    {
        join(&self.to_words())
    }
}

impl MachineState {
    pub fn to_text(&self) -> (t: Vec<u8>)
        ensures
            t@ == machine_state_text(*self),
    {
        match self {
            MachineState::Demo => keyword_bytes(Keyword::Demo),
        }
    }
}

fn copy_word(v: &Vec<u8>) -> (w: Vec<u8>)
    ensures
        w@ == v@,
{
    let mut w: Vec<u8> = Vec::new();
    append(&mut w, v);
    assert(w@ =~= v@);
    w
}

impl MetaCommand {
    /// The words of the command's text.
    pub fn to_words(&self) -> (ws: Vec<Vec<u8>>)
        ensures
            ws@.map_values(|w: Vec<u8>| w@) == meta_command_words(self@),
    {
        let mut ws: Vec<Vec<u8>> = Vec::new();
        match self {
            MetaCommand::Reset(state) => {
                push_word(&mut ws, keyword_bytes(Keyword::Reset));
                match state {
                    Some(s) => push_word(&mut ws, s.to_text()),
                    None => push_word(&mut ws, Vec::new()),
                }
            },
            MetaCommand::LoadRom(path, address) => {
                push_word(&mut ws, keyword_bytes(Keyword::LoadRom));
                push_word(&mut ws, copy_word(path));
                match address {
                    Some(a) => push_word(&mut ws, a.to_text()),
                    None => {},
                }
            },
            MetaCommand::DumpMachine(path) => {
                push_word(&mut ws, keyword_bytes(Keyword::Dump));
                push_word(&mut ws, copy_word(path));
            },
            MetaCommand::LoadMachine(path) => {
                push_word(&mut ws, keyword_bytes(Keyword::LoadMachine));
                push_word(&mut ws, copy_word(path));
            },
            MetaCommand::UnloadRom => push_word(&mut ws, keyword_bytes(Keyword::UnloadRom)),
            MetaCommand::Tick => push_word(&mut ws, keyword_bytes(Keyword::Tick)),
            MetaCommand::Play => push_word(&mut ws, keyword_bytes(Keyword::Play)),
            MetaCommand::Pause => push_word(&mut ws, keyword_bytes(Keyword::Pause)),
            MetaCommand::PlayPause => push_word(&mut ws, keyword_bytes(Keyword::PlayPause)),
        }
        assert(ws@.map_values(|w: Vec<u8>| w@) =~= meta_command_words(self@));
        ws
    }

    /// The command as it is entered at the prompt.
    pub fn to_text(&self) -> (t: Vec<u8>)
        ensures
            t@ == meta_command_text(self@),
    {
        join(&self.to_words())
    }
}

impl Command {
    /// The command as it is entered at the prompt.
    pub fn to_text(&self) -> (t: Vec<u8>)
        ensures
            t@ == command_text(self@),
    {
        match self {
            Command::Meta(m) => m.to_text(),
            Command::Instruction(i) => i.to_text(),
        }
    }
}

} // verus!
