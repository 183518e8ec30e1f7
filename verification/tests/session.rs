use chipper8::assembler::tokens::Tokens;
use chipper8::command::{Command, MetaCommand};
use chipper8::machine::types::{Address, Word};
use chipper8::machine::{Machine, OpCode};
use chipper8::repl::{Repl, Request};
use chipper8::ui::Rom;
use chipper8::Error;

fn line(text: &str) -> Command {
    Command::parse(Tokens::from_str(text)).unwrap().unwrap()
}

fn loaded(bytes: Vec<u8>) -> Repl {
    let mut repl = Repl::new();
    repl.load_rom(Rom::new(String::from("test"), bytes), Address(0x200));
    repl
}

#[test]
fn new_session_is_stopped() {
    let repl = Repl::new();
    assert!(!repl.running);
    assert!(repl.rom.is_none());
    assert!(repl.error.is_none());
    assert!(repl.history.is_empty());
    assert_eq!(repl.machine.program_counter, Address(0));
}

#[test]
fn entered_instruction_runs_and_is_recorded() {
    let mut repl = Repl::new();
    assert!(matches!(repl.enter(line(":play")), Request::Nothing));
    assert!(repl.running);
    assert!(matches!(repl.enter(line("V1 = 5")), Request::Nothing));
    assert_eq!(repl.machine.registers[1], 5);
    assert!(!repl.running);
    assert_eq!(repl.history.len(), 2);
    assert!(repl.history.iter().all(|e| e.entered));
}

#[test]
fn play_pause_toggles() {
    let mut repl = Repl::new();
    repl.enter(line(":play-pause"));
    assert!(repl.running);
    repl.enter(line(":play-pause"));
    assert!(!repl.running);
    repl.enter(line(":play"));
    repl.enter(line(":pause"));
    assert!(!repl.running);
}

#[test]
fn load_asks_for_the_image() {
    let mut repl = Repl::new();
    match repl.enter(line(":load pong")) {
        Request::ReadRom(path, address) => {
            assert_eq!(path, b"pong".to_vec());
            assert_eq!(address, Address(0x200));
        }
        other => panic!("unexpected {:?}", other),
    }
    match repl.enter(line(":load pong 0x300")) {
        Request::ReadRom(_, address) => assert_eq!(address, Address(0x300)),
        other => panic!("unexpected {:?}", other),
    }
    assert!(matches!(repl.enter(line(":dump out.json")), Request::DumpMachine(p) if p.as_slice() == b"out.json"));
    assert!(matches!(repl.enter(line(":load-machine in.json")), Request::LoadMachine(p) if p.as_slice() == b"in.json"));
}

#[test]
fn load_rom_replaces_the_previous_image() {
    let mut repl = loaded(vec![0x11, 0x22, 0x33]);
    assert_eq!(&repl.machine.memory[0x200..0x203], &[0x11, 0x22, 0x33]);
    repl.load_rom(Rom::new(String::from("b"), vec![0x44]), Address(0x300));
    assert_eq!(&repl.machine.memory[0x200..0x203], &[0, 0, 0]);
    assert_eq!(repl.machine.memory[0x300], 0x44);
    assert_eq!(repl.machine.program_counter, Address(0x300));
    assert_eq!(repl.rom.as_ref().unwrap().loaded_at, Some(0x300));
    repl.enter(line(":unload"));
    assert!(repl.rom.is_none());
    assert_eq!(repl.machine.memory[0x300], 0);
}

#[test]
fn tick_runs_one_instruction() {
    let mut repl = loaded(vec![0x61, 0x07, 0x00, 0xF0]);
    assert!(matches!(repl.enter(line(":tick")), Request::Nothing));
    assert_eq!(repl.machine.registers[1], 7);
    assert_eq!(repl.history.len(), 2);
    assert!(repl.history[0].entered);
    assert!(!repl.history[1].entered);
    assert!(matches!(repl.history[1].command, Command::Instruction(_)));
    repl.enter(line(":tick"));
    assert_eq!(repl.error, Some(Error::MachineExit));
}

#[test]
fn frames_tick_only_when_running_and_due() {
    let mut repl = loaded(vec![0x61, 0x07, 0x62, 0x08]);
    assert!(matches!(repl.frame(true), Request::Nothing));
    assert_eq!(repl.machine.registers[1], 0);
    repl.running = true;
    assert!(matches!(repl.frame(false), Request::Nothing));
    assert_eq!(repl.machine.registers[1], 0);
    assert!(matches!(repl.frame(true), Request::Nothing));
    assert_eq!(repl.machine.registers[1], 7);
    assert!(matches!(repl.frame(true), Request::Nothing));
    assert_eq!(repl.machine.registers[2], 8);
    assert!(repl.error.is_none());
    assert!(repl.running);
}

#[test]
fn invalid_opcode_stops_or_is_skipped() {
    let mut repl = loaded(vec![0xE0, 0x9E, 0x61, 0x07]);
    repl.running = true;
    repl.frame(true);
    assert_eq!(repl.error, Some(Error::InvalidOpCode(OpCode(Word(0xE09E)))));
    assert!(!repl.running);
    assert_eq!(repl.machine.program_counter, Address(0x200));

    let mut repl = loaded(vec![0xE0, 0x9E, 0x61, 0x07]);
    repl.skip_unknown_opcode = true;
    repl.running = true;
    repl.frame(true);
    assert!(repl.running);
    assert_eq!(repl.machine.program_counter, Address(0x202));
    repl.frame(true);
    assert_eq!(repl.machine.registers[1], 7);
    assert!(repl.error.is_none());
}

#[test]
fn faults_are_reported() {
    let mut repl = Repl::new();
    assert!(matches!(repl.enter(line("return")), Request::Fault));
    let mut repl = Repl::new();
    repl.machine.program_counter = Address(0xFFF);
    repl.running = true;
    assert!(matches!(repl.frame(true), Request::Fault));
}

#[test]
fn reset_to_demo() {
    let mut repl = Repl::new();
    repl.enter(line(":reset demo"));
    assert_eq!(repl.machine.program_counter, Address(1000));
    repl.enter(line(":reset"));
    assert_eq!(repl.machine.program_counter, Address(0));
    assert_eq!(repl.machine.stack.pointer, 0);
}

#[test]
fn replacing_the_machine_checks_it() {
    let mut repl = Repl::new();
    let mut bad = Machine::new();
    bad.memory.pop();
    assert!(!repl.replace_machine(bad));
    let mut good = Machine::new();
    good.registers[0] = 9;
    assert!(repl.replace_machine(good));
    assert_eq!(repl.machine.registers[0], 9);
}

#[test]
fn execute_meta_directly() {
    let mut repl = Repl::new();
    assert!(matches!(repl.execute_meta(&MetaCommand::Play), Ok(Request::Nothing)));
    assert!(repl.running);
    assert!(matches!(repl.execute(&line(":pause")), Ok(Request::Nothing)));
    assert!(!repl.running);
    assert!(matches!(repl.tick(), Err(Error::InvalidOpCode(_))));
}

#[test]
fn an_image_too_large_is_loaded_clipped() {
    let mut repl = Repl::new();
    repl.load_rom(Rom::new(String::from("big"), vec![0x77; 0x20]), Address(0xFF0));
    assert_eq!(repl.machine.memory.len(), 4096);
    assert_eq!(&repl.machine.memory[0xFF0..], &[0x77; 0x10]);
    repl.enter(line(":unload"));
    assert_eq!(&repl.machine.memory[0xFF0..], &[0; 0x10]);
    assert!(repl.rom.is_none());
}
