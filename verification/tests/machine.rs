use chipper8::machine::config;
use chipper8::machine::draw_options::DrawOptions;
use chipper8::machine::instruction::args::{
    BinaryOp, BinaryOpArgs, DrawArgs, IndexOp, IndexOpArgs, IndexSource, JumpArgs, RegisterArgs,
    Source, Target, Timer,
};
use chipper8::machine::instruction::{Flow, Graphics};
use chipper8::machine::stack::Stack;
use chipper8::machine::types::{Address, Byte, Nibble, Register};
use chipper8::machine::{Instruction, Machine};
use chipper8::ui::Rom;
use chipper8::Error;

fn v(n: u8) -> Register {
    Register(Nibble(n))
}

fn arithmetic(target: Target, source: Source, op: BinaryOp) -> Instruction {
    Instruction::Arithmetic { args: BinaryOpArgs { target, source, op } }
}

#[test]
fn new_machine_holds_the_font() {
    let m = Machine::new();
    assert_eq!(m.memory.len(), 4096);
    assert_eq!(m.display.len(), 2048);
    assert_eq!(m.registers, vec![0u8; 16]);
    assert_eq!(&m.memory[0x50..0x55], &[0xF0, 0x90, 0x90, 0x90, 0xF0]);
    assert_eq!(&m.memory[0x9B..0xA0], &[0xF0, 0x80, 0xF0, 0x80, 0x80]);
    assert_eq!(m.memory[0xA0], 0);
    assert_eq!(m.program_counter, Address(0));
    assert_eq!(m.stack.pointer, 0);
    assert!(m.is_valid());
}

#[test]
fn load_copies_what_fits() {
    let mut m = Machine::new();
    m.load(&Address(0xFFE), &[1, 2, 3, 4]);
    assert_eq!(m.memory[0xFFE], 1);
    assert_eq!(m.memory[0xFFF], 2);
    assert_eq!(m.memory.len(), 4096);
}

#[test]
fn load_and_unload_rom() {
    let mut m = Machine::new();
    let mut rom = Rom::new(String::from("pong"), vec![0x00, 0xE0, 0x12, 0x00]);
    m.load_rom(&mut rom, None);
    assert_eq!(rom.loaded_at, Some(0x200));
    assert_eq!(rom.loaded_range(), Some(0x200..0x204));
    assert_eq!(&m.memory[0x200..0x204], &[0x00, 0xE0, 0x12, 0x00]);
    assert_eq!(m.program_counter, Address(0x200));
    assert_eq!(m.next_instruction(), Ok(Instruction::Graphics(Graphics::Clear)));
    assert_eq!(m.at_program_counter(), Some(0x00E0));
    m.unload_rom(&mut rom);
    assert_eq!(rom.loaded_at, None);
    assert_eq!(&m.memory[0x200..0x204], &[0, 0, 0, 0]);
    assert_eq!(m.program_counter, Address(0x200));

    let mut other = Rom::new(String::from("other"), vec![0xAA]);
    m.load_rom(&mut other, Some(&Address(0x300)));
    assert_eq!(m.byte_at_address(&Address(0x300)), Some(0xAA));
    assert_eq!(m.program_counter, Address(0x300));
}

#[test]
fn reset_keeps_the_key_buffer() {
    let mut m = Machine::new();
    m.registers[3] = 7;
    m.program_counter = Address(0x300);
    m.key_buffer = Some(4);
    m.reset();
    assert_eq!(m.registers[3], 0);
    assert_eq!(m.program_counter, Address(0));
    assert_eq!(m.key_buffer, Some(4));
    assert_eq!(m.memory[0x50], 0xF0);
}

#[test]
fn add_sets_the_carry_flag() {
    let mut m = Machine::new();
    m.registers[1] = 0xFF;
    m.registers[2] = 0x01;
    let add = arithmetic(Target::Register(v(1)), Source::Register(v(2)), BinaryOp::Add);
    assert_eq!(m.execute(&add), Ok(()));
    assert_eq!(m.registers[1], 0x00);
    assert_eq!(m.registers[0xF], 1);
    m.registers[1] = 0x10;
    assert_eq!(m.execute(&add), Ok(()));
    assert_eq!(m.registers[1], 0x11);
    assert_eq!(m.registers[0xF], 0);
}

#[test]
fn add_wrapping_clears_the_flag() {
    let mut m = Machine::new();
    m.registers[1] = 0xFF;
    m.registers[0xF] = 9;
    let add = arithmetic(Target::Register(v(1)), Source::Byte(Byte(2)), BinaryOp::AddWrapping);
    assert_eq!(m.execute(&add), Ok(()));
    assert_eq!(m.registers[1], 0x01);
    assert_eq!(m.registers[0xF], 0);
}

#[test]
fn assign_from_timer_and_to_timer() {
    let mut m = Machine::new();
    m.delay_timer = 0x33;
    assert_eq!(m.execute(&arithmetic(Target::Register(v(4)), Source::Timer(Timer::Delay), BinaryOp::Assign)), Ok(()));
    assert_eq!(m.registers[4], 0x33);
    assert_eq!(m.execute(&arithmetic(Target::Timer(Timer::Sound), Source::Register(v(4)), BinaryOp::Assign)), Ok(()));
    assert_eq!(m.sound_timer, 0x33);
}

#[test]
fn unsupported_instructions_change_nothing() {
    let mut m = Machine::new();
    let or = arithmetic(Target::Register(v(1)), Source::Register(v(2)), BinaryOp::BitOr);
    assert_eq!(m.execute(&or), Err(Error::UnsupportedInstruction(or)));
    let bcd = Instruction::BinaryCodedDecimal { args: RegisterArgs { register: v(1) } };
    assert_eq!(m.execute(&bcd), Err(Error::UnsupportedInstruction(bcd)));
    let index_add = Instruction::Index { args: IndexOpArgs { source: IndexSource::Register(v(1)), op: IndexOp::Add } };
    assert_eq!(m.execute(&index_add), Err(Error::UnsupportedInstruction(index_add)));
    assert_eq!(m.registers, vec![0u8; 16]);
}

#[test]
fn exit_stops_the_machine() {
    let mut m = Machine::new();
    assert_eq!(m.execute(&Instruction::Exit), Err(Error::MachineExit));
}

#[test]
fn call_then_return_restores_the_program_counter() {
    let mut m = Machine::new();
    m.program_counter = Address(0x202);
    let call = Instruction::Flow(Flow::Call { args: JumpArgs { address: Address(0x400), register: None } });
    assert_eq!(m.execute(&call), Ok(()));
    assert_eq!(m.program_counter, Address(0x400));
    assert_eq!(m.stack.pointer, 1);
    assert_eq!(m.execute(&Instruction::Flow(Flow::Return)), Ok(()));
    assert_eq!(m.program_counter, Address(0x202));
    assert_eq!(m.stack.pointer, 0);
    assert!(!m.execute_allowed(&Instruction::Flow(Flow::Return)));
}

#[test]
fn jump_ignores_the_register() {
    let mut m = Machine::new();
    m.registers[0] = 5;
    let jump = Instruction::Flow(Flow::Jump { args: JumpArgs { address: Address(0x300), register: Some(v(0)) } });
    assert_eq!(m.execute(&jump), Ok(()));
    assert_eq!(m.program_counter, Address(0x300));
}

#[test]
fn font_points_index_at_the_digit() {
    let mut m = Machine::new();
    m.registers[2] = 0x1A;
    assert_eq!(m.execute(&Instruction::Font { args: RegisterArgs { register: v(2) } }), Ok(()));
    assert_eq!(m.index, Address(0x50 + 5 * 0xA));
    assert_eq!(m.at_index(), Some(0xF0));
}

#[test]
fn key_await_waits_or_takes_the_key() {
    let mut m = Machine::new();
    m.program_counter = Address(0x204);
    let wait = Instruction::KeyAwait { args: RegisterArgs { register: v(5) } };
    assert_eq!(m.execute(&wait), Ok(()));
    assert_eq!(m.program_counter, Address(0x202));
    m.key_buffer = Some(0xB);
    assert_eq!(m.execute(&wait), Ok(()));
    assert_eq!(m.registers[5], 0xB);
    assert_eq!(m.program_counter, Address(0x202));
}

#[test]
fn index_assign_and_clear() {
    let mut m = Machine::new();
    let set = Instruction::Index { args: IndexOpArgs::assign(Address(0x123)) };
    assert_eq!(m.execute(&set), Ok(()));
    assert_eq!(m.index, Address(0x123));
    m.display[10] = 1;
    assert_eq!(m.execute(&Instruction::Graphics(Graphics::Clear)), Ok(()));
    assert_eq!(m.display, vec![0u8; 2048]);
}

#[test]
fn drawing_twice_restores_the_display() {
    let mut m = Machine::new();
    m.index = Address(0x50);
    let draw = Instruction::Graphics(Graphics::Draw { args: DrawArgs { x: v(0), y: v(1), height: Nibble(5) } });
    m.registers[0] = 62;
    m.registers[1] = 30;
    assert_eq!(m.execute(&draw), Ok(()));
    assert!(m.display.iter().any(|&p| p != 0));
    assert_eq!(m.execute(&draw), Ok(()));
    assert_eq!(m.display, vec![0u8; 2048]);
}

#[test]
fn tick_fetches_advances_and_executes() {
    let mut m = Machine::new();
    let mut rom = Rom::new(String::from("t"), vec![0x63, 0x2A, 0x00, 0xF0]);
    m.load_rom(&mut rom, None);
    m.delay_timer = 2;
    assert!(m.can_tick());
    assert_eq!(m.tick(), Ok(()));
    assert_eq!(m.registers[3], 0x2A);
    assert_eq!(m.program_counter, Address(0x202));
    assert_eq!(m.delay_timer, 1);
    assert_eq!(m.tick(), Err(Error::MachineExit));
    assert_eq!(m.program_counter, Address(0x204));
    assert!(!m.can_tick());
}

#[test]
fn demo_state() {
    let mut m = Machine::new();
    assert_eq!(m.demo(), Ok(()));
    assert_eq!(m.program_counter, Address(1000));
    assert_eq!(m.memory[1000], 0xE0);
    assert_eq!(m.word_at_address(&Address(0xAAA)), Some(0x00E0));
    assert_eq!(m.word_at_address(&Address(0xBBB)), Some(0xF329));
    assert_eq!(m.stack.pointer, 2);
    assert_eq!(m.registers[0], 0x12);
    assert_eq!(m.registers[1], 0xAB);
    assert_eq!(m.delay_timer, 0xF);
    assert_eq!(m.sound_timer, 1);
    assert_eq!(m.display[1000], 0xFF);
    assert_eq!(m.instruction_at_address(&Address(0xBBB)), Ok(Instruction::Font { args: RegisterArgs { register: v(3) } }));
}

#[test]
fn is_valid_rejects_broken_states() {
    let mut m = Machine::new();
    m.program_counter = Address(0x1000);
    assert!(!m.is_valid());
    let mut m = Machine::new();
    m.registers.push(0);
    assert!(!m.is_valid());
    let mut m = Machine::new();
    m.stack.pointer = 1;
    assert!(!m.is_valid());
}

#[test]
fn stack_push_pop() {
    let mut s = Stack::new();
    s.push(Address(0x200));
    s.push(Address(0x300));
    assert_eq!(s.pop(), Address(0x300));
    assert_eq!(s.pop(), Address(0x200));
    s.push(Address(0x400));
    s.reset();
    assert_eq!(s.pointer, 0);
    assert!(s.data.iter().all(|slot| slot.is_none()));
}

#[test]
fn draw_options_xor_a_sprite() {
    let sprite = [0b1100_0000u8];
    let mut target = vec![0u8; 16];
    let options = DrawOptions::new(&sprite, [4, 4]).at([3, 1]);
    assert_eq!(options.pos, [3, 1]);
    assert!(!options.draw(&mut target));
    assert_eq!(target[4 + 3], 0xFF);
    assert_eq!(target.iter().filter(|&&p| p != 0).count(), 1);
    assert!(options.draw(&mut target));
    assert_eq!(target, vec![0u8; 16]);
}

#[test]
fn address_helpers() {
    let mut a = Address::new();
    a.advance(0x10);
    assert_eq!(a, Address(0x10));
    a.step();
    assert_eq!(a.value(), 0x12);
    a.step_back();
    assert_eq!(a.as_index(), 0x10);
    assert_eq!(a.as_range(3), 0x10..0x13);
    assert!(Address::try_from_u16(0x1000).is_err());
    assert_eq!(Address::try_from_usize(0xFFF), Ok(Address(0xFFF)));
    assert_eq!(Address::from_u8(0x12), Address(0x12));
    assert!(Nibble::try_from_u8(16).is_err());
    assert_eq!(Register::try_from_u8(15), Ok(v(15)));
    assert_eq!(config::MEMORY_SIZE, 4096);
}

#[test]
fn unloading_clears_only_memory() {
    let mut m = Machine::new();
    let mut rom = Rom::new(String::from("big"), vec![0x55; 0x30]);
    m.load_rom(&mut rom, Some(&Address(0xFE0)));
    assert_eq!(&m.memory[0xFE0..], &[0x55; 0x20]);
    m.unload_rom(&mut rom);
    assert_eq!(&m.memory[0xFE0..], &[0; 0x20]);
    assert_eq!(m.memory.len(), 4096);
}
