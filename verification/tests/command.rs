use chipper8::assembler::tokens::Tokens;
use chipper8::command::{Command, MachineState, MetaCommand};
use chipper8::errors::IntErrorKind;
use chipper8::machine::types::{Address, Word};
use chipper8::machine::{Instruction, OpCode};
use chipper8::Error;

fn command(text: &str) -> Result<Option<Command>, Error> {
    Command::parse(Tokens::from_str(text))
}

fn meta(text: &str) -> MetaCommand {
    match command(text) {
        Ok(Some(Command::Meta(m))) => m,
        other => panic!("not a meta command: {:?}", other),
    }
}

fn text(c: &Command) -> String {
    String::from_utf8(c.to_text()).unwrap()
}

#[test]
fn empty_line_is_no_command() {
    assert!(matches!(command(""), Ok(None)));
    assert!(matches!(command("  \t "), Ok(None)));
}

#[test]
fn parses_meta_commands() {
    assert!(matches!(meta(":reset"), MetaCommand::Reset(None)));
    assert!(matches!(meta(":reset demo"), MetaCommand::Reset(Some(MachineState::Demo))));
    assert!(matches!(meta(":load pong 0x300"), MetaCommand::LoadRom(p, Some(Address(0x300))) if p.as_slice() == b"pong"));
    assert!(matches!(meta(":load pong 300"), MetaCommand::LoadRom(p, Some(Address(300))) if p.as_slice() == b"pong"));
    assert!(matches!(meta(":load roms/pong.rom"), MetaCommand::LoadRom(p, None) if p.as_slice() == b"roms/pong.rom"));
    assert!(matches!(meta(":dump state.json"), MetaCommand::DumpMachine(p) if p.as_slice() == b"state.json"));
    assert!(matches!(meta(":load-machine state.json"), MetaCommand::LoadMachine(p) if p.as_slice() == b"state.json"));
    assert!(matches!(meta(":unload"), MetaCommand::UnloadRom));
    assert!(matches!(meta(":tick"), MetaCommand::Tick));
    assert!(matches!(meta(":play"), MetaCommand::Play));
    assert!(matches!(meta(":pause"), MetaCommand::Pause));
    assert!(matches!(meta(":play-pause"), MetaCommand::PlayPause));
}

#[test]
fn reports_meta_command_errors() {
    assert!(matches!(command(":frobnicate"), Err(Error::MetaSyntaxError(_))));
    assert!(matches!(command(":reset nothing"), Err(Error::MetaSyntaxError(_))));
    assert!(matches!(command(":load"), Err(Error::MetaSyntaxError(_))));
    assert!(matches!(command(":load 0x200"), Err(Error::MetaSyntaxError(_))));
    assert!(matches!(command(":load pong V1"), Err(Error::SyntaxError(_))));
    assert!(matches!(command(":load pong 0x1000"), Err(Error::IntSizeError(_, 0x1000))));
    assert!(matches!(command(":load pong 5000"), Err(Error::IntSizeError(_, 5000))));
    assert!(matches!(command(":load pong zz"), Err(Error::ParseIntError(IntErrorKind::InvalidDigit))));
    assert!(matches!(command(":dump"), Err(Error::MetaSyntaxError(_))));
}

#[test]
fn parses_instructions_and_opcodes() {
    assert!(matches!(command("exit"), Ok(Some(Command::Instruction(Instruction::Exit)))));
    assert!(matches!(command("0x00F0"), Ok(Some(Command::Instruction(Instruction::Exit)))));
    assert!(matches!(command("0xE09E"), Err(Error::InvalidOpCode(OpCode(Word(0xE09E))))));
    assert!(matches!(command("nonsense"), Err(Error::SyntaxError(_))));
}

#[test]
fn machine_state_parse() {
    assert!(matches!(MachineState::parse(Tokens::from_str("demo")), Ok(Some(MachineState::Demo))));
    assert!(matches!(MachineState::parse(Tokens::from_str("")), Ok(None)));
    assert!(matches!(MachineState::parse(Tokens::from_str("x")), Err(Error::MetaSyntaxError(_))));
    assert_eq!(MachineState::Demo.to_text(), b"demo".to_vec());
}

#[test]
fn command_opcode_and_kind() {
    let exit = Command::Instruction(Instruction::Exit);
    assert_eq!(exit.opcode(), Some(OpCode(Word(0x00F0))));
    assert!(!exit.is_meta());
    let tick = Command::Meta(MetaCommand::Tick);
    assert_eq!(tick.opcode(), None);
    assert!(tick.is_meta());
}

#[test]
fn writes_command_text() {
    assert_eq!(text(&Command::Meta(MetaCommand::Reset(None))), ":reset ");
    assert_eq!(text(&Command::Meta(MetaCommand::Reset(Some(MachineState::Demo)))), ":reset demo");
    assert_eq!(
        text(&Command::Meta(MetaCommand::LoadRom(b"pong".to_vec(), Some(Address(0x300))))),
        ":load pong 0x300"
    );
    assert_eq!(text(&Command::Meta(MetaCommand::LoadRom(b"pong".to_vec(), None))), ":load pong");
    assert_eq!(text(&Command::Meta(MetaCommand::DumpMachine(b"out".to_vec()))), ":dump out");
    assert_eq!(text(&Command::Meta(MetaCommand::LoadMachine(b"in".to_vec()))), ":load-machine in");
    assert_eq!(text(&Command::Meta(MetaCommand::UnloadRom)), ":unload");
    assert_eq!(text(&Command::Meta(MetaCommand::PlayPause)), ":play-pause");
    assert_eq!(text(&Command::Instruction(Instruction::Exit)), "exit");
}

#[test]
fn command_text_reads_back() {
    for line in [":reset ", ":reset demo", ":load pong", ":load pong 0x300", ":dump out", ":tick", ":pause", "exit", "VI = 0x123"] {
        let c = command(line).unwrap().unwrap();
        let again = command(&text(&c)).unwrap().unwrap();
        assert_eq!(text(&again), text(&c));
    }
    let c = Command::Meta(MetaCommand::LoadRom(b"pong".to_vec(), Some(Address(0x300))));
    assert!(matches!(command(&text(&c)), Ok(Some(Command::Meta(MetaCommand::LoadRom(_, Some(Address(0x300))))))));
}

#[test]
fn duplicate_copies_the_command() {
    let c = Command::Meta(MetaCommand::LoadRom(b"pong".to_vec(), None));
    assert_eq!(text(&c.duplicate()), ":load pong");
}
