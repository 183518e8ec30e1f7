use std::time::Duration;

use chipper8::emulator::{Emulator, EmulatorConfig, Step};
use chipper8::machine::types::{Address, Word};
use chipper8::machine::{Instruction, OpCode};
use chipper8::ui::Rom;
use chipper8::Error;

fn config(fps: u64) -> EmulatorConfig {
    EmulatorConfig { rom_path: String::from("test.rom"), fps, dump_path: None }
}

fn emulator(bytes: Vec<u8>) -> Emulator {
    let mut rom = Rom::new(String::from("test"), bytes);
    let e = Emulator::new(config(60), &mut rom);
    assert_eq!(rom.loaded_at, Some(0x200));
    e
}

#[test]
fn frame_time_divides_a_second() {
    assert_eq!(config(60).frame_nanos(), 16_666_666);
    assert_eq!(config(60).frame_time(), Duration::from_nanos(16_666_666));
    assert_eq!(config(1).frame_time(), Duration::from_secs(1));
}

#[test]
fn runs_until_exit() {
    let mut e = emulator(vec![0x00, 0xE0, 0x00, 0xF0]);
    assert_eq!(e.machine.program_counter, Address(0x200));
    assert!(matches!(e.step(), Step::Executed(Instruction::Graphics(_))));
    assert!(!e.terminated);
    assert!(matches!(e.step(), Step::Exited(Instruction::Exit)));
    assert!(e.terminated);
    assert!(matches!(e.step(), Step::Stopped));
}

#[test]
fn halts_on_an_invalid_opcode() {
    let mut e = emulator(vec![0xE0, 0x9E]);
    assert!(matches!(e.step(), Step::Halted(Error::InvalidOpCode(OpCode(Word(0xE09E))))));
    assert!(e.terminated);
}

#[test]
fn reports_failures_and_faults() {
    let mut e = emulator(vec![0x81, 0x21]);
    assert!(matches!(e.step(), Step::Failed(_, Error::UnsupportedInstruction(_))));
    assert!(!e.terminated);
    let mut e = emulator(vec![0x00, 0xEE]);
    assert!(matches!(e.step(), Step::Fault));
    assert_eq!(e.machine.program_counter, Address(0x200));
}

#[test]
fn tick_steps_only_when_the_frame_is_due() {
    let mut e = emulator(vec![0x61, 0x07, 0x00, 0xF0]);
    assert!(matches!(e.tick(false), Step::Stopped));
    assert_eq!(e.machine.program_counter, Address(0x200));
    assert!(matches!(e.tick(true), Step::Executed(_)));
    assert_eq!(e.machine.registers[1], 7);
    assert!(matches!(e.tick(false), Step::Stopped));
    assert!(!e.terminated);
    assert!(matches!(e.tick(true), Step::Exited(Instruction::Exit)));
    assert!(e.terminated);
}
