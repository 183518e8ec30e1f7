use vstd::prelude::*;

use crate::errors::{Error, Result};
use crate::machine::types::{Address, Byte, Nibble, Register, Word};

use super::args::{
    BinaryOp, BinaryOpArgs, BranchArgs, Comparator, DrawArgs, IndexOp, IndexOpArgs, IndexSource,
    JumpArgs, RegisterArgs, Source, Target, Timer,
};
use super::instruction::{Flow, Graphics, Instruction};

verus! {

/// The sixteen-bit machine encoding of an instruction.
#[derive(Clone, Copy, Debug, PartialEq, Eq, Structural)]
pub struct OpCode(pub Word);

// The four nibbles of an opcode, highest first: `H X Y N`.
pub open spec fn field_h(code: u16) -> int { code as int / 0x1000 }
pub open spec fn field_x(code: u16) -> int { (code as int / 0x100) % 0x10 }
pub open spec fn field_y(code: u16) -> int { (code as int / 0x10) % 0x10 }
pub open spec fn field_n(code: u16) -> int { code as int % 0x10 }
/// The low byte `NN`.
pub open spec fn field_nn(code: u16) -> int { code as int % 0x100 }
/// The low twelve bits `NNN`.
pub open spec fn field_nnn(code: u16) -> int { code as int % 0x1000 }

pub open spec fn reg(v: int) -> Register {
    Register(Nibble(v as u8))
}

pub open spec fn addr(v: int) -> Address {
    Address(v as u16)
}

/// The register operand `VX` of an opcode.
pub open spec fn reg_x(code: u16) -> Register { reg(field_x(code)) }
/// The register operand `VY` of an opcode.
pub open spec fn reg_y(code: u16) -> Register { reg(field_y(code)) }

/// The operation selected by the lowest nibble of an `8XYN` opcode.
pub open spec fn register_op(n: int) -> Option<BinaryOp> {
    if n == 0x0 { Some(BinaryOp::Assign) }
    else if n == 0x1 { Some(BinaryOp::BitOr) }
    else if n == 0x2 { Some(BinaryOp::BitAnd) }
    else if n == 0x3 { Some(BinaryOp::BitXor) }
    else if n == 0x4 { Some(BinaryOp::Add) }
    else if n == 0x5 { Some(BinaryOp::Subtract) }
    else if n == 0x6 { Some(BinaryOp::BitShiftRight) }
    else if n == 0x7 { Some(BinaryOp::SubtractAlt) }
    else if n == 0xE { Some(BinaryOp::BitShiftLeft) }
    else { None }
}

/// The lowest nibble of an `8XYN` opcode for an operation between registers.
pub open spec fn register_op_nibble(op: BinaryOp) -> Option<int> {
    match op {
        BinaryOp::Assign => Some(0x0),
        BinaryOp::BitOr => Some(0x1),
        BinaryOp::BitAnd => Some(0x2),
        BinaryOp::BitXor => Some(0x3),
        BinaryOp::Add => Some(0x4),
        BinaryOp::Subtract => Some(0x5),
        BinaryOp::BitShiftRight => Some(0x6),
        BinaryOp::SubtractAlt => Some(0x7),
        BinaryOp::BitShiftLeft => Some(0xE),
        BinaryOp::AddWrapping | BinaryOp::Random => None,
    }
}

pub open spec fn jump_args(code: u16, register: Option<Register>) -> JumpArgs {
    JumpArgs { address: addr(field_nnn(code)), register }
}

pub open spec fn comparator_for(equal: bool) -> Comparator {
    if equal { Comparator::Equal } else { Comparator::NotEqual }
}

/// The instruction an opcode stands for, or `None` where no instruction has it.
pub open spec fn decode_spec(code: u16) -> Option<Instruction> {
    let h = field_h(code);
    let nnn = field_nnn(code);
    let nn = field_nn(code);
    let n = field_n(code);
    if h == 0x0 {
        if nnn == 0x0E0 {
            Some(Instruction::Graphics(Graphics::Clear))
        } else if nnn == 0x0EE {
            Some(Instruction::Flow(Flow::Return))
        } else if nnn == 0x0F0 {
            Some(Instruction::Exit)
        } else if nnn == 0 {
            None
        } else {
            Some(Instruction::Flow(Flow::Sys { args: jump_args(code, None) }))
        }
    } else if h == 0x1 {
        Some(Instruction::Flow(Flow::Jump { args: jump_args(code, None) }))
    } else if h == 0xB {
        Some(Instruction::Flow(Flow::Jump { args: jump_args(code, Some(reg(0))) }))
    } else if h == 0x2 {
        Some(Instruction::Flow(Flow::Call { args: jump_args(code, None) }))
    } else if h == 0xA {
        Some(Instruction::Index {
            args: IndexOpArgs { source: IndexSource::Value(addr(nnn)), op: IndexOp::Assign },
        })
    } else if h == 0x3 || h == 0x4 {
        Some(Instruction::Flow(Flow::Branch { args: BranchArgs {
            lhs: Source::Register(reg_x(code)),
            rhs: Source::Byte(Byte(nn as u8)),
            comparator: comparator_for(h == 0x3),
        } }))
    } else if h == 0x5 || h == 0x9 {
        if n == 0 {
            Some(Instruction::Flow(Flow::Branch { args: BranchArgs {
                lhs: Source::Register(reg_x(code)),
                rhs: Source::Register(reg_y(code)),
                comparator: comparator_for(h == 0x5),
            } }))
        } else {
            None
        }
    } else if h == 0x6 || h == 0x7 || h == 0xC {
        Some(Instruction::Arithmetic { args: BinaryOpArgs {
            target: Target::Register(reg_x(code)),
            source: Source::Byte(Byte(nn as u8)),
            op: if h == 0x6 { BinaryOp::Assign } else if h == 0x7 { BinaryOp::AddWrapping } else { BinaryOp::Random },
        } })
    } else if h == 0x8 {
        match register_op(n) {
            Some(op) => Some(Instruction::Arithmetic { args: BinaryOpArgs {
                target: Target::Register(reg_x(code)),
                source: Source::Register(reg_y(code)),
                op,
            } }),
            None => None,
        }
    } else if h == 0xD {
        Some(Instruction::Graphics(Graphics::Draw { args: DrawArgs {
            x: reg_x(code),
            y: reg_y(code),
            height: Nibble(n as u8),
        } }))
    } else if h == 0xF {
        let r = reg_x(code);
        if nn == 0x0A {
            Some(Instruction::KeyAwait { args: RegisterArgs { register: r } })
        } else if nn == 0x07 {
            Some(Instruction::Arithmetic { args: BinaryOpArgs {
                op: BinaryOp::Assign,
                source: Source::Timer(Timer::Delay),
                target: Target::Register(r),
            } })
        } else if nn == 0x1E {
            Some(Instruction::Index {
                args: IndexOpArgs { source: IndexSource::Register(r), op: IndexOp::Add },
            })
        } else if nn == 0x29 {
            Some(Instruction::Font { args: RegisterArgs { register: r } })
        } else if nn == 0x33 {
            Some(Instruction::BinaryCodedDecimal { args: RegisterArgs { register: r } })
        } else if nn == 0x15 || nn == 0x18 {
            Some(Instruction::Arithmetic { args: BinaryOpArgs {
                target: Target::Timer(if nn == 0x15 { Timer::Delay } else { Timer::Sound }),
                source: Source::Register(r),
                op: BinaryOp::Assign,
            } })
        } else {
            None
        }
    } else {
        None
    }
}

/// The outcome of decoding: the instruction, or the invalid opcode error.
pub open spec fn decode_result(opcode: OpCode) -> Result<Instruction> {
    match decode_spec(opcode.0.0) {
        Some(i) => Ok(i),
        None => Err(Error::InvalidOpCode(opcode)),
    }
}

fn register_from(v: u16) -> (r: Register)
    requires
        v < 16,
    ensures
        r == reg(v as int),
{
    Register(Nibble(v as u8))
}

impl OpCode {
    /// The two bytes of the opcode, most significant first.
    pub fn bytes(&self) -> (b: [u8; 2])
        ensures
            b[0] == self.0.0 / 0x100,
            b[1] == self.0.0 % 0x100,
    {
        let code = self.0.0;
        [(code / 0x100) as u8, (code % 0x100) as u8]
    }

    /// Decodes the opcode; see `Instruction::try_from_opcode`.
    pub fn as_instruction(&self) -> (res: Result<Instruction>)
        ensures
            res == decode_result(*self),
    {
        Instruction::try_from_opcode(*self)
    }
}

impl Instruction {
    /// Decodes an opcode. Fails with `InvalidOpCode` carrying the opcode
    /// exactly when no instruction has that encoding.
    pub fn try_from_opcode(opcode: OpCode) -> (res: Result<Instruction>)
        ensures
            res == decode_result(opcode),
            res matches Ok(i) ==> i.wf(),
    {
        let code = opcode.0.0;
        let h = code / 0x1000;
        let nnn = code % 0x1000;
        let nn = code % 0x100;
        let n = code % 0x10;
        let x = register_from((code / 0x100) % 0x10);
        let y = register_from((code / 0x10) % 0x10);
        if h == 0x0 {
            if nnn == 0x0E0 {
                Ok(Instruction::Graphics(Graphics::Clear))
            } else if nnn == 0x0EE {
                Ok(Instruction::Flow(Flow::Return))
            } else if nnn == 0x0F0 {
                Ok(Instruction::Exit)
            } else if nnn == 0 {
                Err(Error::InvalidOpCode(opcode))
            } else {
                let args = JumpArgs { address: Address(nnn), register: None };
                Ok(Instruction::Flow(Flow::Sys { args }))
            }
        } else if h == 0x1 || h == 0x2 || h == 0xA || h == 0xB {
            let register = if h == 0xB { Some(register_from(0)) } else { None };
            let args = JumpArgs { address: Address(nnn), register };
            if h == 0x1 || h == 0xB {
                Ok(Instruction::Flow(Flow::Jump { args }))
            } else if h == 0x2 {
                Ok(Instruction::Flow(Flow::Call { args }))
            } else {
                Ok(Instruction::Index { args: IndexOpArgs::assign(args.address) })
            }
        } else if h == 0x3 || h == 0x4 || h == 0x5 || h == 0x9 {
            let rhs = if h == 0x3 || h == 0x4 {
                Source::Byte(Byte(nn as u8))
            } else if n == 0 {
                Source::Register(y)
            } else {
                return Err(Error::InvalidOpCode(opcode));
            };
            let comparator = if h == 0x3 || h == 0x5 {
                Comparator::Equal
            } else {
                Comparator::NotEqual
            };
            let args = BranchArgs { lhs: Source::Register(x), rhs, comparator };
            Ok(Instruction::Flow(Flow::Branch { args }))
        } else if h == 0x6 || h == 0x7 || h == 0xC {
            let op = if h == 0x6 {
                BinaryOp::Assign
            } else if h == 0x7 {
                BinaryOp::AddWrapping
            } else {
                BinaryOp::Random
            };
            let args = BinaryOpArgs {
                source: Source::Byte(Byte(nn as u8)),
                target: Target::Register(x),
                op,
            };
            Ok(Instruction::Arithmetic { args })
        } else if h == 0x8 {
            let op = if n == 0x0 {
                BinaryOp::Assign
            } else if n == 0x1 {
                BinaryOp::BitOr
            } else if n == 0x2 {
                BinaryOp::BitAnd
            } else if n == 0x3 {
                BinaryOp::BitXor
            } else if n == 0x4 {
                BinaryOp::Add
            } else if n == 0x5 {
                BinaryOp::Subtract
            } else if n == 0x6 {
                BinaryOp::BitShiftRight
            } else if n == 0x7 {
                BinaryOp::SubtractAlt
            } else if n == 0xE {
                BinaryOp::BitShiftLeft
            } else {
                return Err(Error::InvalidOpCode(opcode));
            };
            let args = BinaryOpArgs { source: Source::Register(y), target: Target::Register(x), op };
            Ok(Instruction::Arithmetic { args })
        } else if h == 0xD {
            let args = DrawArgs { x, y, height: Nibble(n as u8) };
            Ok(Instruction::Graphics(Graphics::Draw { args }))
        } else if h == 0xF {
            let register = x;
            if nn == 0x0A {
                Ok(Instruction::KeyAwait { args: RegisterArgs { register } })
            } else if nn == 0x07 {
                Ok(Instruction::Arithmetic {
                    args: BinaryOpArgs {
                        op: BinaryOp::Assign,
                        source: Source::Timer(Timer::Delay),
                        target: Target::Register(register),
                    },
                })
            } else if nn == 0x1E {
                Ok(Instruction::Index { args: IndexOpArgs::add(register) })
            } else if nn == 0x29 {
                Ok(Instruction::Font { args: RegisterArgs { register } })
            } else if nn == 0x33 {
                Ok(Instruction::BinaryCodedDecimal { args: RegisterArgs { register } })
            } else if nn == 0x15 || nn == 0x18 {
                let target = Target::Timer(if nn == 0x15 { Timer::Delay } else { Timer::Sound });
                let source = Source::Register(register);
                Ok(Instruction::Arithmetic { args: BinaryOpArgs { target, source, op: BinaryOp::Assign } })
            } else {
                Err(Error::InvalidOpCode(opcode))
            }
        } else {
            Err(Error::InvalidOpCode(opcode))
        }
    }
}

/// The opcode with the given high byte and low byte.
pub open spec fn word(high: int, low: int) -> int {
    high * 0x100 + low
}

/// The opcode of a branch, when it has one.
pub open spec fn encode_branch(args: BranchArgs) -> Option<int> {
    let lower = match args.rhs {
        Source::Byte(b) => Some(b.0 as int),
        Source::Register(r) => Some(r.id() * 0x10),
        Source::Timer(_) => None,
    };
    let upper = match args.rhs {
        Source::Byte(_) => Some(if args.comparator == Comparator::Equal { 0x30int } else { 0x40int }),
        Source::Register(_) => Some(if args.comparator == Comparator::Equal { 0x50int } else { 0x90int }),
        Source::Timer(_) => None,
    };
    let left = match args.lhs {
        Source::Register(r) => Some(r.id() as int),
        _ => None,
    };
    match (lower, upper, left) {
        (Some(lo), Some(up), Some(l)) => Some(word(up + l, lo)),
        _ => None,
    }
}

/// The opcode of an arithmetic instruction, when it has one.
pub open spec fn encode_arithmetic(args: BinaryOpArgs) -> Option<int> {
    match args.target {
        Target::Register(vx) => match args.source {
            Source::Byte(b) => match args.op {
                BinaryOp::Assign => Some(0x6000 + vx.id() * 0x100 + b.0),
                BinaryOp::AddWrapping => Some(0x7000 + vx.id() * 0x100 + b.0),
                BinaryOp::Random => Some(0xC000 + vx.id() * 0x100 + b.0),
                _ => None,
            },
            Source::Register(vy) => match register_op_nibble(args.op) {
                Some(n) => Some(word(vx.id() + 0x80, vy.id() * 0x10 + n)),
                None => None,
            },
            Source::Timer(Timer::Delay) => Some(0xF007 + vx.id() * 0x100),
            Source::Timer(Timer::Sound) => None,
        },
        Target::Timer(timer) => {
            if args.op != BinaryOp::Assign {
                None
            } else {
                match args.source {
                    Source::Register(vx) => Some(word(
                        0xF0 + vx.id(),
                        if timer == Timer::Delay { 0x15 } else { 0x18 },
                    )),
                    _ => None,
                }
            }
        },
    }
}

/// The opcode of an instruction, or `None` where the instruction has no
/// machine encoding.
pub open spec fn encode_spec(i: Instruction) -> Option<int> {
    match i {
        Instruction::Exit => Some(0x00F0),
        Instruction::Graphics(Graphics::Clear) => Some(0x00E0),
        Instruction::Graphics(Graphics::Draw { args }) => Some(
            word(0xD0 + args.x.id(), args.y.id() * 0x10 + args.height.0),
        ),
        Instruction::Flow(Flow::Return) => Some(0x00EE),
        Instruction::Flow(Flow::Sys { args }) => match args.register {
            Some(_) => None,
            None => Some(args.address.0 as int),
        },
        Instruction::Flow(Flow::Jump { args }) => match args.register {
            None => Some(0x1000 + args.address.0),
            Some(r) => if r.id() == 0 { Some(0xB000 + args.address.0) } else { None },
        },
        Instruction::Flow(Flow::Call { args }) => match args.register {
            Some(_) => None,
            None => Some(0x2000 + args.address.0),
        },
        Instruction::Flow(Flow::Branch { args }) => encode_branch(args),
        Instruction::Index { args } => match (args.op, args.source) {
            (IndexOp::Assign, IndexSource::Value(a)) => Some(0xA000 + a.0),
            (IndexOp::Add, IndexSource::Register(vx)) => Some(0xF01E + vx.id() * 0x100),
            _ => None,
        },
        Instruction::Arithmetic { args } => encode_arithmetic(args),
        Instruction::Font { args } => Some(0xF029 + args.register.id() * 0x100),
        Instruction::KeyAwait { args } => Some(0xF00A + args.register.id() * 0x100),
        Instruction::BinaryCodedDecimal { args } => Some(0xF033 + args.register.id() * 0x100),
    }
}

/// The outcome of encoding: the opcode, or the error naming the instruction.
pub open spec fn encode_result(i: Instruction) -> Result<OpCode> {
    match encode_spec(i) {
        Some(c) => Ok(OpCode(Word(c as u16))),
        None => Err(Error::NoOpcodeError(i)),
    }
}

/// The encodings of well-formed instructions fit in sixteen bits.
pub proof fn lemma_encode_in_range(i: Instruction)
    requires
        i.wf(),
    ensures
        encode_spec(i) matches Some(c) ==> 0 <= c < 0x10000,
{
}

impl OpCode {
    /// Encodes an instruction. Fails with `NoOpcodeError` carrying the
    /// instruction exactly when the instruction has no machine encoding.
    pub fn try_from_instruction(instruction: &Instruction) -> (res: Result<OpCode>)
        requires
            instruction.wf(),
        ensures
            res == encode_result(*instruction),
    {
        proof { lemma_encode_in_range(*instruction); }
        let no_opcode = Err(Error::NoOpcodeError(*instruction));
        let code: u16 = match instruction {
            Instruction::Exit => 0x00F0,
            Instruction::Graphics(graphics) => match graphics {
                Graphics::Clear => 0x00E0,
                Graphics::Draw { args } => {
                    let upper_byte = 0xD0 + args.x.value() as u16;
                    let lower_byte = args.y.value() as u16 * 0x10 + args.height.value() as u16;
                    upper_byte * 0x100 + lower_byte
                },
            },
            Instruction::Flow(flow) => match flow {
                Flow::Return => 0x00EE,
                Flow::Sys { args } => match args.register {
                    Some(_) => return no_opcode,
                    None => args.address.value(),
                },
                Flow::Jump { args } => match args.register {
                    None => 0x1000 + args.address.value(),
                    Some(r) => if r.value() == 0 {
                        0xB000 + args.address.value()
                    } else {
                        return no_opcode;
                    },
                },
                Flow::Call { args } => match args.register {
                    Some(_) => return no_opcode,
                    None => 0x2000 + args.address.value(),
                },
                Flow::Branch { args } => {
                    let lower_byte: u16 = match args.rhs {
                        Source::Byte(b) => b.value() as u16,
                        Source::Register(r) => r.value() as u16 * 0x10,
                        Source::Timer(_) => return no_opcode,
                    };
                    let comparator_byte: u16 = match args.rhs {
                        Source::Byte(_) => match args.comparator {
                            Comparator::Equal => 0x30,
                            Comparator::NotEqual => 0x40,
                        },
                        Source::Register(_) => match args.comparator {
                            Comparator::Equal => 0x50,
                            Comparator::NotEqual => 0x90,
                        },
                        Source::Timer(_) => return no_opcode,
                    };
                    let register_byte: u16 = match args.lhs {
                        Source::Register(r) => r.value() as u16,
                        Source::Byte(_) | Source::Timer(_) => return no_opcode,
                    };
                    (comparator_byte + register_byte) * 0x100 + lower_byte
                },
            },
            Instruction::Index { args } => match args.op {
                IndexOp::Assign => match args.source {
                    IndexSource::Value(address) => 0xA000 + address.value(),
                    IndexSource::Register(_) => return no_opcode,
                },
                IndexOp::Add => match args.source {
                    IndexSource::Value(_) => return no_opcode,
                    IndexSource::Register(vx) => 0xF01E + vx.value() as u16 * 0x100,
                },
            },
            Instruction::Arithmetic { args } => match args.target {
                Target::Register(vx) => {
                    let x = vx.value() as u16;
                    match args.source {
                        Source::Byte(byte) => {
                            let b = byte.value() as u16;
                            match args.op {
                                BinaryOp::Assign => 0x6000 + x * 0x100 + b,
                                BinaryOp::AddWrapping => 0x7000 + x * 0x100 + b,
                                BinaryOp::Random => 0xC000 + x * 0x100 + b,
                                _ => return no_opcode,
                            }
                        },
                        Source::Register(vy) => {
                            let lowest_nibble: u16 = match args.op {
                                BinaryOp::Assign => 0x0,
                                BinaryOp::BitOr => 0x1,
                                BinaryOp::BitAnd => 0x2,
                                BinaryOp::BitXor => 0x3,
                                BinaryOp::Add => 0x4,
                                BinaryOp::Subtract => 0x5,
                                BinaryOp::BitShiftRight => 0x6,
                                BinaryOp::SubtractAlt => 0x7,
                                BinaryOp::BitShiftLeft => 0xE,
                                BinaryOp::AddWrapping | BinaryOp::Random => return no_opcode,
                            };
                            (x + 0x80) * 0x100 + vy.value() as u16 * 0x10 + lowest_nibble
                        },
                        Source::Timer(timer) => match timer {
                            Timer::Delay => 0xF007 + x * 0x100,
                            Timer::Sound => return no_opcode,
                        },
                    }
                },
                Target::Timer(timer) => {
                    if args.op != BinaryOp::Assign {
                        return no_opcode;
                    }
                    let lower_byte: u16 = match timer {
                        Timer::Delay => 0x15,
                        Timer::Sound => 0x18,
                    };
                    match args.source {
                        Source::Register(vx) => (0xF0 + vx.value() as u16) * 0x100 + lower_byte,
                        Source::Byte(_) | Source::Timer(_) => return no_opcode,
                    }
                },
            },
            Instruction::Font { args } => 0xF029 + args.register.value() as u16 * 0x100,
            Instruction::KeyAwait { args } => 0xF00A + args.register.value() as u16 * 0x100,
            Instruction::BinaryCodedDecimal { args } => 0xF033 + args.register.value() as u16 * 0x100,
        };
        Ok(OpCode(Word(code)))
    }
}

/// An opcode is the sum of its four nibbles in place.
pub proof fn lemma_fields(code: u16)
    ensures
        0 <= field_h(code) < 16,
        0 <= field_x(code) < 16,
        0 <= field_y(code) < 16,
        0 <= field_n(code) < 16,
        field_nn(code) == field_y(code) * 0x10 + field_n(code),
        field_nnn(code) == field_x(code) * 0x100 + field_nn(code),
        code == field_h(code) * 0x1000 + field_nnn(code),
{
}

/// The nibbles of a sum of nibbles in place are the summands.
pub proof fn lemma_fields_of(code: u16, h: int, x: int, y: int, n: int)
    requires
        0 <= h < 16,
        0 <= x < 16,
        0 <= y < 16,
        0 <= n < 16,
        code == h * 0x1000 + x * 0x100 + y * 0x10 + n,
    ensures
        field_h(code) == h,
        field_x(code) == x,
        field_y(code) == y,
        field_n(code) == n,
        field_nn(code) == y * 0x10 + n,
        field_nnn(code) == x * 0x100 + y * 0x10 + n,
{
    lemma_fields(code);
}

/// The opcodes `8XYN` name operations between registers `VX` and `VY` by
/// their lowest nibble: 0 assigns, 1 ORs, 2 ANDs, 3 XORs, 4 adds, 5
/// subtracts (`VX = VX - VY`), 6 shifts right, 7 subtracts the other way
/// (`VX = VY - VX`), E shifts left; the other nibbles are no instruction.
/// Each of these operations is encoded back as the same opcode.
pub proof fn lemma_register_operation_opcodes(x: int, y: int, n: int)
    requires
        0 <= x < 16,
        0 <= y < 16,
        0 <= n < 16,
    ensures
        ({
            let code = (0x8000 + x * 0x100 + y * 0x10 + n) as u16;
            let op = if n == 0 { Some(BinaryOp::Assign) }
                else if n == 1 { Some(BinaryOp::BitOr) }
                else if n == 2 { Some(BinaryOp::BitAnd) }
                else if n == 3 { Some(BinaryOp::BitXor) }
                else if n == 4 { Some(BinaryOp::Add) }
                else if n == 5 { Some(BinaryOp::Subtract) }
                else if n == 6 { Some(BinaryOp::BitShiftRight) }
                else if n == 7 { Some(BinaryOp::SubtractAlt) }
                else if n == 0xE { Some(BinaryOp::BitShiftLeft) }
                else { None };
            match op {
                Some(op) => {
                    let i = Instruction::Arithmetic { args: BinaryOpArgs {
                        target: Target::Register(Register(Nibble(x as u8))),
                        source: Source::Register(Register(Nibble(y as u8))),
                        op,
                    } };
                    &&& decode_spec(code) == Some(i)
                    &&& encode_spec(i) == Some(code as int)
                },
                None => decode_spec(code) is None,
            }
        }),
{
    let code = (0x8000 + x * 0x100 + y * 0x10 + n) as u16;
    lemma_fields_of(code, 8, x, y, n);
}

/// The opcodes with a byte `NN` and a register `VX`: `6XNN` assigns the
/// byte, `7XNN` adds it without touching `VF`, `CXNN` assigns a random
/// number masked by it; `FX07` copies the delay timer into `VX`, `FX15`
/// sets the delay timer and `FX18` the sound timer to `VX`. Each is encoded
/// back as the same opcode.
pub proof fn lemma_byte_and_timer_opcodes(x: int, nn: int)
    requires
        0 <= x < 16,
        0 <= nn < 256,
    ensures
        ({
            let vx = Register(Nibble(x as u8));
            let byte_op = |h: int, op: BinaryOp| {
                let code = (h * 0x1000 + x * 0x100 + nn) as u16;
                let i = Instruction::Arithmetic { args: BinaryOpArgs {
                    target: Target::Register(vx),
                    source: Source::Byte(Byte(nn as u8)),
                    op,
                } };
                decode_spec(code) == Some(i) && encode_spec(i) == Some(code as int)
            };
            let timer_op = |low: int, target: Target, source: Source| {
                let code = (0xF000 + x * 0x100 + low) as u16;
                let i = Instruction::Arithmetic { args: BinaryOpArgs { target, source, op: BinaryOp::Assign } };
                decode_spec(code) == Some(i) && encode_spec(i) == Some(code as int)
            };
            &&& byte_op(6, BinaryOp::Assign)
            &&& byte_op(7, BinaryOp::AddWrapping)
            &&& byte_op(0xC, BinaryOp::Random)
            &&& timer_op(0x07, Target::Register(vx), Source::Timer(Timer::Delay))
            &&& timer_op(0x15, Target::Timer(Timer::Delay), Source::Register(vx))
            &&& timer_op(0x18, Target::Timer(Timer::Sound), Source::Register(vx))
        }),
{
    lemma_fields_of((6 * 0x1000 + x * 0x100 + nn) as u16, 6, x, nn / 0x10, nn % 0x10);
    lemma_fields_of((7 * 0x1000 + x * 0x100 + nn) as u16, 7, x, nn / 0x10, nn % 0x10);
    lemma_fields_of((0xC * 0x1000 + x * 0x100 + nn) as u16, 0xC, x, nn / 0x10, nn % 0x10);
    lemma_fields_of((0xF000 + x * 0x100 + 0x07) as u16, 0xF, x, 0, 7);
    lemma_fields_of((0xF000 + x * 0x100 + 0x15) as u16, 0xF, x, 1, 5);
    lemma_fields_of((0xF000 + x * 0x100 + 0x18) as u16, 0xF, x, 1, 8);
}

/// The opcodes of control flow, graphics, the index register and the other
/// `FX..` forms, by their nibbles: `00E0` clears the screen, `00EE` returns,
/// `00F0` exits, `0NNN` (other than those and 0) calls a system routine,
/// `1NNN` jumps, `BNNN` jumps offset by `V0`, `2NNN` calls, `3XNN`/`4XNN`
/// skip when `VX` equals/differs from `NN`, `5XY0`/`9XY0` when `VX`
/// equals/differs from `VY`, `ANNN` sets the index, `DXYN` draws `N` rows
/// at (`VX`, `VY`), `FX0A` waits for a key, `FX1E` adds `VX` to the index,
/// `FX29` points the index at the font sprite of `VX`, `FX33` stores `VX`
/// in decimal.
pub proof fn lemma_other_opcodes(x: int, y: int, n: int)
    requires
        0 <= x < 16,
        0 <= y < 16,
        0 <= n < 16,
    ensures
        ({
            let nnn = x * 0x100 + y * 0x10 + n;
            let nn = y * 0x10 + n;
            let vx = Register(Nibble(x as u8));
            let vy = Register(Nibble(y as u8));
            let at = |h: int| (h * 0x1000 + nnn) as u16;
            let jump = JumpArgs { address: Address(nnn as u16), register: None };
            &&& decode_spec(0x00E0) == Some(Instruction::Graphics(Graphics::Clear))
            &&& decode_spec(0x00EE) == Some(Instruction::Flow(Flow::Return))
            &&& decode_spec(0x00F0) == Some(Instruction::Exit)
            &&& decode_spec(0x0000) is None
            &&& (nnn != 0 && nnn != 0x0E0 && nnn != 0x0EE && nnn != 0x0F0 ==>
                decode_spec(at(0)) == Some(Instruction::Flow(Flow::Sys { args: jump })))
            &&& decode_spec(at(1)) == Some(Instruction::Flow(Flow::Jump { args: jump }))
            &&& decode_spec(at(0xB)) == Some(Instruction::Flow(Flow::Jump {
                args: JumpArgs { address: Address(nnn as u16), register: Some(Register(Nibble(0))) } }))
            &&& decode_spec(at(2)) == Some(Instruction::Flow(Flow::Call { args: jump }))
            &&& decode_spec(at(3)) == Some(Instruction::Flow(Flow::Branch { args: BranchArgs {
                lhs: Source::Register(vx), rhs: Source::Byte(Byte(nn as u8)), comparator: Comparator::Equal } }))
            &&& decode_spec(at(4)) == Some(Instruction::Flow(Flow::Branch { args: BranchArgs {
                lhs: Source::Register(vx), rhs: Source::Byte(Byte(nn as u8)), comparator: Comparator::NotEqual } }))
            &&& (n == 0 ==> decode_spec(at(5)) == Some(Instruction::Flow(Flow::Branch { args: BranchArgs {
                lhs: Source::Register(vx), rhs: Source::Register(vy), comparator: Comparator::Equal } })))
            &&& (n == 0 ==> decode_spec(at(9)) == Some(Instruction::Flow(Flow::Branch { args: BranchArgs {
                lhs: Source::Register(vx), rhs: Source::Register(vy), comparator: Comparator::NotEqual } })))
            &&& decode_spec(at(0xA)) == Some(Instruction::Index { args: IndexOpArgs {
                source: IndexSource::Value(Address(nnn as u16)), op: IndexOp::Assign } })
            &&& decode_spec(at(0xD)) == Some(Instruction::Graphics(Graphics::Draw { args: DrawArgs {
                x: vx, y: vy, height: Nibble(n as u8) } }))
            &&& decode_spec((0xF00A + x * 0x100) as u16) == Some(Instruction::KeyAwait { args: RegisterArgs { register: vx } })
            &&& decode_spec((0xF01E + x * 0x100) as u16) == Some(Instruction::Index { args: IndexOpArgs {
                source: IndexSource::Register(vx), op: IndexOp::Add } })
            &&& decode_spec((0xF029 + x * 0x100) as u16) == Some(Instruction::Font { args: RegisterArgs { register: vx } })
            &&& decode_spec((0xF033 + x * 0x100) as u16) == Some(
                Instruction::BinaryCodedDecimal { args: RegisterArgs { register: vx } })
        }),
{
    let nnn = x * 0x100 + y * 0x10 + n;
    lemma_fields_of(0x00E0, 0, 0, 0xE, 0);
    lemma_fields_of(0x00EE, 0, 0, 0xE, 0xE);
    lemma_fields_of(0x00F0, 0, 0, 0xF, 0);
    lemma_fields_of(0x0000, 0, 0, 0, 0);
    lemma_fields_of(nnn as u16, 0, x, y, n);
    lemma_fields_of((0x1000 + nnn) as u16, 1, x, y, n);
    lemma_fields_of((0xB000 + nnn) as u16, 0xB, x, y, n);
    lemma_fields_of((0x2000 + nnn) as u16, 2, x, y, n);
    lemma_fields_of((0x3000 + nnn) as u16, 3, x, y, n);
    lemma_fields_of((0x4000 + nnn) as u16, 4, x, y, n);
    lemma_fields_of((0x5000 + nnn) as u16, 5, x, y, n);
    lemma_fields_of((0x9000 + nnn) as u16, 9, x, y, n);
    lemma_fields_of((0xA000 + nnn) as u16, 0xA, x, y, n);
    lemma_fields_of((0xD000 + nnn) as u16, 0xD, x, y, n);
    lemma_fields_of((0xF00A + x * 0x100) as u16, 0xF, x, 0, 0xA);
    lemma_fields_of((0xF01E + x * 0x100) as u16, 0xF, x, 1, 0xE);
    lemma_fields_of((0xF029 + x * 0x100) as u16, 0xF, x, 2, 9);
    lemma_fields_of((0xF033 + x * 0x100) as u16, 0xF, x, 3, 3);
}

/// Decoding yields well-formed instructions.
pub proof fn lemma_decode_wf(code: u16)
    ensures
        decode_spec(code) matches Some(i) ==> i.wf(),
{
    lemma_fields(code);
}

/// Every opcode that decodes to an instruction is that instruction's
/// encoding: decoding and then encoding gives back the opcode.
pub proof fn lemma_decode_then_encode(code: u16)
    ensures
        decode_spec(code) matches Some(i) ==> encode_spec(i) == Some(code as int),
{
    lemma_fields(code);
}

/// The instructions whose encoding decodes to another instruction: a `sys`
/// call to address 0, 0x0E0, 0x0EE or 0x0F0 (whose encodings are invalid or
/// belong to `clear`, `return` and `exit`), and a non-assigning operation
/// with the delay timer as source, which is encoded as the assignment.
pub open spec fn encoding_is_ambiguous(i: Instruction) -> bool {
    match i {
        Instruction::Flow(Flow::Sys { args }) => {
            let a = args.address.0;
            a == 0 || a == 0x0E0 || a == 0x0EE || a == 0x0F0
        },
        Instruction::Arithmetic { args } => {
            &&& args.target is Register
            &&& args.source == Source::Timer(Timer::Delay)
            &&& args.op != BinaryOp::Assign
        },
        _ => false,
    }
}

proof fn lemma_encode_then_decode_flow(i: Instruction, c: int)
    requires
        i.wf(),
        !encoding_is_ambiguous(i),
        i is Flow,
        encode_spec(i) == Some(c),
        0 <= c < 0x10000,
    ensures
        decode_spec(c as u16) == Some(i),
{
    let code = c as u16;
    let h = field_h(code);
    match i {
        Instruction::Flow(Flow::Return) => lemma_fields_of(code, 0, 0, 0xE, 0xE),
        Instruction::Flow(Flow::Sys { args }) | Instruction::Flow(Flow::Jump { args })
            | Instruction::Flow(Flow::Call { args }) => {
            let a = args.address.0 as int;
            lemma_fields_of(code, h, a / 0x100, (a % 0x100) / 0x10, a % 0x10);
        },
        Instruction::Flow(Flow::Branch { args }) => {
            let x = match args.lhs { Source::Register(r) => r.id() as int, _ => 0 };
            match args.rhs {
                Source::Byte(b) => lemma_fields_of(code, h, x, b.0 as int / 0x10, b.0 as int % 0x10),
                Source::Register(r) => lemma_fields_of(code, h, x, r.id() as int, 0),
                Source::Timer(_) => {},
            }
        },
        _ => {},
    }
}

proof fn lemma_encode_then_decode_arithmetic(i: Instruction, c: int)
    requires
        i.wf(),
        !encoding_is_ambiguous(i),
        i is Arithmetic,
        encode_spec(i) == Some(c),
        0 <= c < 0x10000,
    ensures
        decode_spec(c as u16) == Some(i),
{
    let code = c as u16;
    let h = field_h(code);
    if let Instruction::Arithmetic { args } = i {
        match args.target {
            Target::Register(vx) => {
                let x = vx.id() as int;
                match args.source {
                    Source::Byte(b) => lemma_fields_of(code, h, x, b.0 as int / 0x10, b.0 as int % 0x10),
                    Source::Register(vy) => lemma_fields_of(code, h, x, vy.id() as int, field_n(code)),
                    Source::Timer(_) => lemma_fields_of(code, h, x, 0, 7),
                }
            },
            Target::Timer(t) => match args.source {
                Source::Register(vx) => lemma_fields_of(
                    code, h, vx.id() as int, 1, if t == Timer::Delay { 5 } else { 8 }),
                _ => {},
            },
        }
    }
}

proof fn lemma_encode_then_decode_other(i: Instruction, c: int)
    requires
        i.wf(),
        !(i is Flow),
        !(i is Arithmetic),
        encode_spec(i) == Some(c),
        0 <= c < 0x10000,
    ensures
        decode_spec(c as u16) == Some(i),
{
    let code = c as u16;
    let h = field_h(code);
    match i {
        Instruction::Exit => lemma_fields_of(code, 0, 0, 0xF, 0),
        Instruction::Graphics(Graphics::Clear) => lemma_fields_of(code, 0, 0, 0xE, 0),
        Instruction::Graphics(Graphics::Draw { args }) =>
            lemma_fields_of(code, 0xD, args.x.id() as int, args.y.id() as int, args.height.0 as int),
        Instruction::Index { args } => match args.source {
            IndexSource::Value(a) => lemma_fields_of(
                code, h, a.0 as int / 0x100, (a.0 as int % 0x100) / 0x10, a.0 as int % 0x10),
            IndexSource::Register(r) => lemma_fields_of(code, h, r.id() as int, 1, 0xE),
        },
        Instruction::Font { args } => lemma_fields_of(code, 0xF, args.register.id() as int, 2, 9),
        Instruction::KeyAwait { args } => lemma_fields_of(code, 0xF, args.register.id() as int, 0, 0xA),
        Instruction::BinaryCodedDecimal { args } =>
            lemma_fields_of(code, 0xF, args.register.id() as int, 3, 3),
        _ => {},
    }
}

/// Encoding a well-formed instruction and decoding the opcode gives back the
/// instruction, except for the instructions of `encoding_is_ambiguous`.
pub proof fn lemma_encode_then_decode(i: Instruction)
    requires
        i.wf(),
        !encoding_is_ambiguous(i),
    ensures
        encode_spec(i) matches Some(c) ==> decode_spec(c as u16) == Some(i),
{
    lemma_encode_in_range(i);
    if let Some(c) = encode_spec(i) {
        if i is Flow {
            lemma_encode_then_decode_flow(i, c);
        } else if i is Arithmetic {
            lemma_encode_then_decode_arithmetic(i, c);
        } else {
            lemma_encode_then_decode_other(i, c);
        }
    }
}

} // verus!
