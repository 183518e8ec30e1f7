use chipper8::assembler::tokens::Tokens;
use chipper8::machine::instruction::args::{
    BinaryOp, BinaryOpArgs, BranchArgs, Comparator, DrawArgs, IndexOp, IndexOpArgs, IndexSource,
    JumpArgs, RegisterArgs, Source, Target, Timer,
};
use chipper8::machine::instruction::{Flow, Graphics};
use chipper8::machine::types::{Address, Byte, Nibble, Register, Word};
use chipper8::machine::{Instruction, OpCode};
use chipper8::Error;

fn register(n: u8) -> Register {
    Register(Nibble(n))
}

fn decode(code: u16) -> Result<Instruction, Error> {
    Instruction::try_from_opcode(OpCode(Word(code)))
}

fn encode(instruction: &Instruction) -> Result<OpCode, Error> {
    OpCode::try_from_instruction(instruction)
}

fn parse_text(text: &[u8]) -> Result<Instruction, Error> {
    Instruction::parse(Tokens::from_bytes(text))
}

// The number of opcodes below 0xFFFF that decode to no instruction, as the
// decoder defines them: 0x0000, the `5XYN`/`9XYN` forms with N other than 0,
// the `8XYN` forms with an unknown N, all of `EXNN`, and the `FXNN` forms
// with an unknown NN.
#[test]
fn round_trip_opcode_instruction_opcode() {
    let mut invalid_opcodes = 0usize;
    for code in 0..0xFFFFu16 {
        let opcode = OpCode(Word(code));
        if let Ok(instruction) = Instruction::try_from_opcode(opcode) {
            assert_eq!(code, OpCode::try_from_instruction(&instruction).unwrap().0 .0);
        } else {
            invalid_opcodes += 1;
        }
    }
    assert_eq!(invalid_opcodes, 17552);
}

#[test]
fn round_trip_opcode_instruction_text_instruction_opcode() {
    let mut invalid_opcodes = 0usize;
    for code in 0..0xFFFFu16 {
        let opcode = OpCode(Word(code));
        let opcode_string = opcode.to_text();
        if let Ok(instruction) = Instruction::try_from_opcode(opcode) {
            let text = instruction.to_text();
            let parsed = parse_text(&text).unwrap();
            let parsed_from_opcode_string = parse_text(&opcode_string).unwrap();
            assert_eq!(parsed, instruction);
            assert_eq!(parsed_from_opcode_string, instruction);
            assert_eq!(code, OpCode::try_from_instruction(&instruction).unwrap().0 .0);
        } else {
            invalid_opcodes += 1;
        }
    }
    assert_eq!(invalid_opcodes, 17552);
}

#[test]
fn decodes_each_opcode_family() {
    assert_eq!(decode(0x00E0), Ok(Instruction::Graphics(Graphics::Clear)));
    assert_eq!(decode(0x00EE), Ok(Instruction::Flow(Flow::Return)));
    assert_eq!(decode(0x00F0), Ok(Instruction::Exit));
    assert_eq!(
        decode(0x0123),
        Ok(Instruction::Flow(Flow::Sys { args: JumpArgs { address: Address(0x123), register: None } }))
    );
    assert_eq!(
        decode(0x1ABC),
        Ok(Instruction::Flow(Flow::Jump { args: JumpArgs { address: Address(0xABC), register: None } }))
    );
    assert_eq!(
        decode(0xB123),
        Ok(Instruction::Flow(Flow::Jump { args: JumpArgs { address: Address(0x123), register: Some(register(0)) } }))
    );
    assert_eq!(
        decode(0x2ABC),
        Ok(Instruction::Flow(Flow::Call { args: JumpArgs { address: Address(0xABC), register: None } }))
    );
    assert_eq!(
        decode(0x3A12),
        Ok(Instruction::Flow(Flow::Branch { args: BranchArgs {
            lhs: Source::Register(register(0xA)),
            rhs: Source::Byte(Byte(0x12)),
            comparator: Comparator::Equal,
        } }))
    );
    assert_eq!(
        decode(0x4A12),
        Ok(Instruction::Flow(Flow::Branch { args: BranchArgs {
            lhs: Source::Register(register(0xA)),
            rhs: Source::Byte(Byte(0x12)),
            comparator: Comparator::NotEqual,
        } }))
    );
    assert_eq!(
        decode(0x9AB0),
        Ok(Instruction::Flow(Flow::Branch { args: BranchArgs {
            lhs: Source::Register(register(0xA)),
            rhs: Source::Register(register(0xB)),
            comparator: Comparator::NotEqual,
        } }))
    );
    assert_eq!(
        decode(0x6A12),
        Ok(Instruction::Arithmetic { args: BinaryOpArgs {
            target: Target::Register(register(0xA)),
            source: Source::Byte(Byte(0x12)),
            op: BinaryOp::Assign,
        } })
    );
    assert_eq!(
        decode(0x7A12),
        Ok(Instruction::Arithmetic { args: BinaryOpArgs {
            target: Target::Register(register(0xA)),
            source: Source::Byte(Byte(0x12)),
            op: BinaryOp::AddWrapping,
        } })
    );
    assert_eq!(
        decode(0x8124),
        Ok(Instruction::Arithmetic { args: BinaryOpArgs {
            target: Target::Register(register(1)),
            source: Source::Register(register(2)),
            op: BinaryOp::Add,
        } })
    );
    assert_eq!(
        decode(0xA123),
        Ok(Instruction::Index { args: IndexOpArgs { source: IndexSource::Value(Address(0x123)), op: IndexOp::Assign } })
    );
    assert_eq!(
        decode(0xD125),
        Ok(Instruction::Graphics(Graphics::Draw { args: DrawArgs { x: register(1), y: register(2), height: Nibble(5) } }))
    );
    assert_eq!(decode(0xF30A), Ok(Instruction::KeyAwait { args: RegisterArgs { register: register(3) } }));
    assert_eq!(decode(0xF329), Ok(Instruction::Font { args: RegisterArgs { register: register(3) } }));
    assert_eq!(decode(0xF333), Ok(Instruction::BinaryCodedDecimal { args: RegisterArgs { register: register(3) } }));
    assert_eq!(
        decode(0xF31E),
        Ok(Instruction::Index { args: IndexOpArgs { source: IndexSource::Register(register(3)), op: IndexOp::Add } })
    );
    assert_eq!(
        decode(0xF307),
        Ok(Instruction::Arithmetic { args: BinaryOpArgs {
            target: Target::Register(register(3)),
            source: Source::Timer(Timer::Delay),
            op: BinaryOp::Assign,
        } })
    );
    assert_eq!(
        decode(0xF318),
        Ok(Instruction::Arithmetic { args: BinaryOpArgs {
            target: Target::Timer(Timer::Sound),
            source: Source::Register(register(3)),
            op: BinaryOp::Assign,
        } })
    );
}

#[test]
fn invalid_opcodes_are_reported() {
    for code in [0x0000u16, 0x5121, 0x9AB1, 0x812F, 0xE09E, 0xF3FF] {
        assert_eq!(decode(code), Err(Error::InvalidOpCode(OpCode(Word(code)))));
    }
}

#[test]
fn instructions_without_opcode_are_reported() {
    let add_timer = Instruction::Arithmetic { args: BinaryOpArgs {
        target: Target::Timer(Timer::Delay),
        source: Source::Byte(Byte(1)),
        op: BinaryOp::Add,
    } };
    assert_eq!(encode(&add_timer), Err(Error::NoOpcodeError(add_timer)));
    let index_from_register = Instruction::Index {
        args: IndexOpArgs { source: IndexSource::Register(register(1)), op: IndexOp::Assign },
    };
    assert_eq!(encode(&index_from_register), Err(Error::NoOpcodeError(index_from_register)));
}

#[test]
fn ambiguous_encodings_decode_to_another_instruction() {
    let sys_clear = Instruction::Flow(Flow::Sys { args: JumpArgs { address: Address(0x0E0), register: None } });
    let code = encode(&sys_clear).unwrap();
    assert_eq!(code, OpCode(Word(0x00E0)));
    assert_eq!(decode(0x00E0), Ok(Instruction::Graphics(Graphics::Clear)));
}

#[test]
fn opcode_bytes_are_big_endian() {
    assert_eq!(OpCode(Word(0xD125)).bytes(), [0xD1, 0x25]);
    assert_eq!(OpCode(Word(0x00E0)).bytes(), [0x00, 0xE0]);
}

#[test]
fn opcode_as_instruction_decodes() {
    assert_eq!(OpCode(Word(0x00F0)).as_instruction(), Ok(Instruction::Exit));
}
