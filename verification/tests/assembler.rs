use chipper8::assembler::keyword::{is_keyword, keyword_bytes, same_bytes, Keyword};
use chipper8::assembler::number::parse_unsigned;
use chipper8::assembler::token::Token;
use chipper8::assembler::tokens::Tokens;
use chipper8::errors::IntErrorKind;
use chipper8::machine::instruction::args::{
    BinaryOp, BinaryOpArgs, BranchArgs, Comparator, DrawArgs, IndexOp, IndexOpArgs, IndexSource,
    JumpArgs, RegisterArgs, Source, Target, Timer,
};
use chipper8::machine::instruction::{Flow, Graphics};
use chipper8::machine::types::{Address, Byte, Nibble, Register, Word};
use chipper8::machine::{Instruction, OpCode};
use chipper8::Error;

fn vx(n: u8) -> Register {
    Register(Nibble(n))
}

fn parse(text: &str) -> Result<Instruction, Error> {
    Instruction::parse(Tokens::from_str(text))
}

fn text_of(instruction: &Instruction) -> String {
    String::from_utf8(instruction.to_text()).unwrap()
}

#[test]
fn tokens_split_on_whitespace() {
    let tokens = Tokens::from_str("  jump\t0x200   V1\n:reset demo ");
    assert_eq!(tokens.tokens.len(), 5);
    assert!(matches!(&tokens.tokens[0], Token::Other(s) if s.as_slice() == b"jump"));
    assert!(matches!(&tokens.tokens[1], Token::Hex(s) if s.as_slice() == b"200"));
    assert!(matches!(&tokens.tokens[2], Token::Register(s) if s.as_slice() == b"1"));
    assert!(matches!(&tokens.tokens[3], Token::Meta(s) if s.as_slice() == b":reset"));
    assert!(matches!(&tokens.tokens[4], Token::Other(s) if s.as_slice() == b"demo"));
    assert_eq!(Tokens::from_str("   ").tokens.len(), 0);
}

#[test]
fn tokens_are_taken_in_order() {
    let mut tokens = Tokens::from_bytes(b"exit 0");
    assert!(matches!(tokens.peek(), Some(Token::Other(s)) if s.as_slice() == b"exit"));
    assert!(matches!(tokens.next(), Some(Token::Other(s)) if s.as_slice() == b"exit"));
    assert!(matches!(tokens.next(), Some(Token::Other(s)) if s.as_slice() == b"0"));
    assert!(tokens.next().is_none());
    assert!(tokens.peek().is_none());
}

#[test]
fn words_are_classified() {
    assert!(matches!(Token::from_word(b""), Token::Empty));
    assert!(matches!(Token::from_word(b"0x1F"), Token::Hex(s) if s.as_slice() == b"1F"));
    assert!(matches!(Token::from_word(b"0"), Token::Other(_)));
    assert!(matches!(Token::from_word(b"VF"), Token::Register(s) if s.as_slice() == b"F"));
    assert!(matches!(Token::from_word(b"VFF"), Token::Other(_)));
    assert!(matches!(Token::from_word(b":tick"), Token::Meta(_)));
}

#[test]
fn numbers_read_like_from_str_radix() {
    assert_eq!(parse_unsigned(b"1F", 16, 0xFF), Ok(31));
    assert_eq!(parse_unsigned(b"+12", 10, 0xFF), Ok(12));
    assert_eq!(parse_unsigned(b"", 10, 0xFF), Err(IntErrorKind::Empty));
    assert_eq!(parse_unsigned(b"+", 10, 0xFF), Err(IntErrorKind::InvalidDigit));
    assert_eq!(parse_unsigned(b"-1", 10, 0xFF), Err(IntErrorKind::InvalidDigit));
    assert_eq!(parse_unsigned(b"1G", 16, 0xFF), Err(IntErrorKind::InvalidDigit));
    assert_eq!(parse_unsigned(b"256", 10, 0xFF), Err(IntErrorKind::PosOverflow));
    assert_eq!(parse_unsigned(b"FFFF", 16, 0xFFFF), Ok(0xFFFF));
}

#[test]
fn token_values() {
    assert_eq!(Token::from_word(b"0x10").to_u8(), Ok(16));
    assert_eq!(Token::from_word(b"300").to_u16(), Ok(300));
    assert_eq!(Token::from_word(b"0xF").to_nibble(), Ok(Nibble(15)));
    assert_eq!(Token::from_word(b"0x10").to_nibble().map_err(|e| matches!(e, Error::IntSizeError(_, 16))), Err(true));
    assert_eq!(Token::from_word(b"0xFFF").to_address(), Ok(Address(0xFFF)));
    assert_eq!(Token::from_word(b"0x1000").to_address().map_err(|e| matches!(e, Error::IntSizeError(_, 0x1000))), Err(true));
    assert_eq!(Token::from_word(b"VA").to_register(), Ok(vx(10)));
    assert!(matches!(Token::from_word(b"exit").to_register(), Err(Error::SyntaxError(_))));
    assert_eq!(Token::from_word(b"7").to_byte(), Ok(Byte(7)));
}

#[test]
fn parses_each_instruction_form() {
    assert_eq!(parse("exit"), Ok(Instruction::Exit));
    assert_eq!(parse("graphics clear"), Ok(Instruction::Graphics(Graphics::Clear)));
    assert_eq!(
        parse("graphics draw V1 V2 0x5"),
        Ok(Instruction::Graphics(Graphics::Draw { args: DrawArgs { x: vx(1), y: vx(2), height: Nibble(5) } }))
    );
    assert_eq!(parse("return"), Ok(Instruction::Flow(Flow::Return)));
    assert_eq!(
        parse("jump 0x200 V0"),
        Ok(Instruction::Flow(Flow::Jump { args: JumpArgs { address: Address(0x200), register: Some(vx(0)) } }))
    );
    assert_eq!(
        parse("call 512"),
        Ok(Instruction::Flow(Flow::Call { args: JumpArgs { address: Address(0x200), register: None } }))
    );
    assert_eq!(
        parse("sys 0x123"),
        Ok(Instruction::Flow(Flow::Sys { args: JumpArgs { address: Address(0x123), register: None } }))
    );
    assert_eq!(
        parse("branch V1 0x12 !"),
        Ok(Instruction::Flow(Flow::Branch { args: BranchArgs {
            lhs: Source::Register(vx(1)),
            rhs: Source::Byte(Byte(0x12)),
            comparator: Comparator::NotEqual,
        } }))
    );
    assert_eq!(
        parse("VI = 0x123"),
        Ok(Instruction::Index { args: IndexOpArgs { source: IndexSource::Value(Address(0x123)), op: IndexOp::Assign } })
    );
    assert_eq!(
        parse("VI += V4"),
        Ok(Instruction::Index { args: IndexOpArgs { source: IndexSource::Register(vx(4)), op: IndexOp::Add } })
    );
    assert_eq!(
        parse("V1 += V2"),
        Ok(Instruction::Arithmetic { args: BinaryOpArgs {
            target: Target::Register(vx(1)),
            source: Source::Register(vx(2)),
            op: BinaryOp::Add,
        } })
    );
    assert_eq!(
        parse("VT = V3"),
        Ok(Instruction::Arithmetic { args: BinaryOpArgs {
            target: Target::Timer(Timer::Delay),
            source: Source::Register(vx(3)),
            op: BinaryOp::Assign,
        } })
    );
    assert_eq!(
        parse("V3 ?= 18"),
        Ok(Instruction::Arithmetic { args: BinaryOpArgs {
            target: Target::Register(vx(3)),
            source: Source::Byte(Byte(18)),
            op: BinaryOp::Random,
        } })
    );
    assert_eq!(parse("font V3"), Ok(Instruction::Font { args: RegisterArgs { register: vx(3) } }));
    assert_eq!(parse("key await V3"), Ok(Instruction::KeyAwait { args: RegisterArgs { register: vx(3) } }));
    assert_eq!(parse("bcd V3"), Ok(Instruction::BinaryCodedDecimal { args: RegisterArgs { register: vx(3) } }));
    assert_eq!(parse("0x00E0"), Ok(Instruction::Graphics(Graphics::Clear)));
}

#[test]
fn reports_syntax_and_number_errors() {
    assert!(matches!(parse(""), Err(Error::SyntaxError(_))));
    assert!(matches!(parse("frobnicate"), Err(Error::SyntaxError(_))));
    assert!(matches!(parse("graphics"), Err(Error::SyntaxError(_))));
    assert!(matches!(parse("key V3"), Err(Error::SyntaxError(_))));
    assert!(matches!(parse("V1 +="), Err(Error::SyntaxError(_))));
    assert!(matches!(parse(":tick"), Err(Error::SyntaxError(_))));
    assert_eq!(parse("V1 = 0x100"), Err(Error::ParseIntError(IntErrorKind::PosOverflow)));
    assert_eq!(parse("VG = 1"), Err(Error::ParseIntError(IntErrorKind::InvalidDigit)));
    assert!(matches!(parse("graphics draw V1 V2 0x10"), Err(Error::IntSizeError(_, 16))));
    assert!(matches!(parse("jump 0x1000"), Err(Error::IntSizeError(_, 0x1000))));
    assert_eq!(parse("0xE09E"), Err(Error::InvalidOpCode(OpCode(Word(0xE09E)))));
}

#[test]
fn writes_instruction_text() {
    assert_eq!(text_of(&Instruction::Exit), "exit");
    assert_eq!(
        text_of(&Instruction::Graphics(Graphics::Draw { args: DrawArgs { x: vx(1), y: vx(2), height: Nibble(5) } })),
        "graphics draw V1 V2 0x5"
    );
    assert_eq!(
        text_of(&Instruction::Flow(Flow::Jump { args: JumpArgs { address: Address(0x200), register: Some(vx(0)) } })),
        "jump 0x200 V0"
    );
    assert_eq!(
        text_of(&Instruction::Arithmetic { args: BinaryOpArgs {
            target: Target::Timer(Timer::Sound),
            source: Source::Byte(Byte(0xAB)),
            op: BinaryOp::BitShiftLeft,
        } }),
        "VS <<= 0xAB"
    );
    assert_eq!(
        text_of(&Instruction::Index { args: IndexOpArgs { source: IndexSource::Value(Address(0x12)), op: IndexOp::Assign } }),
        "VI = 0x012"
    );
    assert_eq!(
        text_of(&Instruction::Flow(Flow::Branch { args: BranchArgs {
            lhs: Source::Timer(Timer::Delay),
            rhs: Source::Register(vx(0xF)),
            comparator: Comparator::Equal,
        } })),
        "branch VT VF"
    );
    assert_eq!(text_of(&Instruction::KeyAwait { args: RegisterArgs { register: vx(0xC) } }), "key await VC");
    assert_eq!(String::from_utf8(OpCode(Word(0xD125)).to_text()).unwrap(), "0xD125");
    assert_eq!(String::from_utf8(Byte(7).to_text()).unwrap(), "0x7");
    assert_eq!(String::from_utf8(Byte(0x7A).to_text()).unwrap(), "0x7A");
}

#[test]
fn text_reads_back_as_the_instruction() {
    let instructions = [
        Instruction::Exit,
        Instruction::Flow(Flow::Return),
        Instruction::Flow(Flow::Branch { args: BranchArgs {
            lhs: Source::Byte(Byte(3)),
            rhs: Source::Timer(Timer::Sound),
            comparator: Comparator::NotEqual,
        } }),
        Instruction::Arithmetic { args: BinaryOpArgs {
            target: Target::Timer(Timer::Delay),
            source: Source::Timer(Timer::Sound),
            op: BinaryOp::SubtractAlt,
        } },
        Instruction::Index { args: IndexOpArgs { source: IndexSource::Register(vx(9)), op: IndexOp::Add } },
    ];
    for instruction in instructions {
        assert_eq!(parse(&text_of(&instruction)), Ok(instruction));
    }
}

#[test]
fn opcode_parse_reads_hexadecimal() {
    assert_eq!(OpCode::parse(Tokens::from_str("0x00E0")), Ok(OpCode(Word(0x00E0))));
    assert!(matches!(OpCode::parse(Tokens::from_str("exit")), Err(Error::OpCodeSyntaxError(_))));
    assert!(matches!(OpCode::parse(Tokens::from_str("")), Err(Error::OpCodeSyntaxError(_))));
    assert_eq!(OpCode::parse(Tokens::from_str("0x10000")), Err(Error::ParseIntError(IntErrorKind::PosOverflow)));
}

#[test]
fn keywords() {
    assert_eq!(keyword_bytes(Keyword::PlayPause), b":play-pause".to_vec());
    assert!(is_keyword(b"await", Keyword::Await));
    assert!(!is_keyword(b"awai", Keyword::Await));
    assert!(same_bytes(b"abc", b"abc"));
    assert!(!same_bytes(b"abc", b"abd"));
}

#[test]
fn tokens_split_on_unicode_whitespace() {
    let tokens = Tokens::from_str("exit\u{A0}V1\u{2003}=\u{3000}5\u{85}x\u{1680}y\u{205F}z");
    assert_eq!(tokens.tokens.len(), 7);
    assert!(matches!(&tokens.tokens[0], Token::Other(s) if s.as_slice() == b"exit"));
    assert!(matches!(&tokens.tokens[1], Token::Register(s) if s.as_slice() == b"1"));
    assert!(matches!(&tokens.tokens[6], Token::Other(s) if s.as_slice() == b"z"));
    assert_eq!(parse("V1\u{2028}+=\u{202F}0x2"), parse("V1 += 0x2"));
    let kept = Tokens::from_str("caf\u{E9} \u{2010}");
    assert_eq!(kept.tokens.len(), 2);
    assert!(matches!(&kept.tokens[0], Token::Other(s) if s.as_slice() == "caf\u{E9}".as_bytes()));
}
