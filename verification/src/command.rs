use vstd::prelude::*;

use crate::assembler::keyword::{is_keyword, keyword_text, Keyword};
use crate::assembler::parser::{instruction_spec, is_word, tok};
use crate::assembler::token::{token_address, Token, TokenModel};
use crate::assembler::tokens::Tokens;
use crate::errors::{Error, ErrorClass, Result};
use crate::machine::instruction::op_code::{encode_spec, OpCode};
use crate::machine::types::{Address, Word};
use crate::machine::Instruction;

verus! {

type SpecResult<T> = core::result::Result<T, ErrorClass>;

/// A prepared machine state that a reset can set up.
#[derive(Clone, Copy, Debug, PartialEq, Eq, Structural)]
pub enum MachineState {
    Demo,
}

/// A command to the interactive session rather than to the machine. Paths
/// are held as the bytes of the word that names them.
#[derive(Debug)]
pub enum MetaCommand {
    Reset(Option<MachineState>),
    LoadRom(Vec<u8>, Option<Address>),
    DumpMachine(Vec<u8>),
    LoadMachine(Vec<u8>),
    UnloadRom,
    Tick,
    Play,
    Pause,
    PlayPause,
}

pub enum MetaCommandModel {
    Reset(Option<MachineState>),
    LoadRom(Seq<u8>, Option<Address>),
    DumpMachine(Seq<u8>),
    LoadMachine(Seq<u8>),
    UnloadRom,
    Tick,
    Play,
    Pause,
    PlayPause,
}

impl View for MetaCommand {
    type V = MetaCommandModel;

    open spec fn view(&self) -> MetaCommandModel {
        match self {
            MetaCommand::Reset(s) => MetaCommandModel::Reset(*s),
            MetaCommand::LoadRom(p, a) => MetaCommandModel::LoadRom(p@, *a),
            MetaCommand::DumpMachine(p) => MetaCommandModel::DumpMachine(p@),
            MetaCommand::LoadMachine(p) => MetaCommandModel::LoadMachine(p@),
            MetaCommand::UnloadRom => MetaCommandModel::UnloadRom,
            MetaCommand::Tick => MetaCommandModel::Tick,
            MetaCommand::Play => MetaCommandModel::Play,
            MetaCommand::Pause => MetaCommandModel::Pause,
            MetaCommand::PlayPause => MetaCommandModel::PlayPause,
        }
    }
}

/// A line entered at the prompt: a meta command or a machine instruction.
#[derive(Debug)]
pub enum Command {
    Meta(MetaCommand),
    Instruction(Instruction),
}

pub enum CommandModel {
    Meta(MetaCommandModel),
    Instruction(Instruction),
}

impl View for Command {
    type V = CommandModel;

    open spec fn view(&self) -> CommandModel {
        match self {
            Command::Meta(m) => CommandModel::Meta(m@),
            Command::Instruction(i) => CommandModel::Instruction(*i),
        }
    }
}

pub open spec fn is_meta_word(t: TokenModel, k: Keyword) -> bool {
    t matches TokenModel::Meta(s) && s == keyword_text(k)
}

/// `demo` or nothing.
pub open spec fn machine_state_spec(ts: Seq<TokenModel>) -> SpecResult<Option<MachineState>> {
    match tok(ts, 0) {
        Some(t) => if is_word(t, Keyword::Demo) { Ok(Some(MachineState::Demo)) } else { Err(ErrorClass::MetaSyntax) },
        None => Ok(None),
    }
}

/// A path word after a meta command.
pub open spec fn path_spec(ts: Seq<TokenModel>) -> SpecResult<Seq<u8>> {
    match tok(ts, 0) {
        Some(TokenModel::Other(p)) => Ok(p),
        _ => Err(ErrorClass::MetaSyntax),
    }
}

/// The meta command a line of tokens spells.
pub open spec fn meta_command_spec(ts: Seq<TokenModel>) -> SpecResult<MetaCommandModel> {
    match tok(ts, 0) {
        Some(t) => {
            let rest = ts.skip(1);
            if is_meta_word(t, Keyword::Reset) {
                match machine_state_spec(rest) {
                    Ok(state) => Ok(MetaCommandModel::Reset(state)),
                    Err(e) => Err(e),
                }
            } else if is_meta_word(t, Keyword::LoadRom) {
                match path_spec(rest) {
                    Ok(path) => match tok(ts, 2) {
                        Some(a) => match token_address(a) {
                            Ok(address) => Ok(MetaCommandModel::LoadRom(path, Some(address))),
                            Err(e) => Err(e),
                        },
                        None => Ok(MetaCommandModel::LoadRom(path, None)),
                    },
                    Err(e) => Err(e),
                }
            } else if is_meta_word(t, Keyword::UnloadRom) {
                Ok(MetaCommandModel::UnloadRom)
            } else if is_meta_word(t, Keyword::Dump) {
                match path_spec(rest) {
                    Ok(path) => Ok(MetaCommandModel::DumpMachine(path)),
                    Err(e) => Err(e),
                }
            } else if is_meta_word(t, Keyword::LoadMachine) {
                match path_spec(rest) {
                    Ok(path) => Ok(MetaCommandModel::LoadMachine(path)),
                    Err(e) => Err(e),
                }
            } else if is_meta_word(t, Keyword::Tick) {
                Ok(MetaCommandModel::Tick)
            } else if is_meta_word(t, Keyword::Play) {
                Ok(MetaCommandModel::Play)
            } else if is_meta_word(t, Keyword::Pause) {
                Ok(MetaCommandModel::Pause)
            } else if is_meta_word(t, Keyword::PlayPause) {
                Ok(MetaCommandModel::PlayPause)
            } else {
                Err(ErrorClass::MetaSyntax)
            }
        },
        None => Err(ErrorClass::MetaSyntax),
    }
}

/// The command a line of tokens spells: nothing for an empty line, a meta
/// command for a line that starts with `:`, and an instruction otherwise.
pub open spec fn command_spec(ts: Seq<TokenModel>) -> SpecResult<Option<CommandModel>> {
    match tok(ts, 0) {
        None | Some(TokenModel::Empty) => Ok(None),
        Some(TokenModel::Meta(_)) => match meta_command_spec(ts) {
            Ok(m) => Ok(Some(CommandModel::Meta(m))),
            Err(e) => Err(e),
        },
        Some(_) => match instruction_spec(ts) {
            Ok(i) => Ok(Some(CommandModel::Instruction(i))),
            Err(e) => Err(e),
        },
    }
}

pub open spec fn classify_view<T: View>(r: Result<T>) -> SpecResult<T::V> {
    match r {
        Ok(v) => Ok(v@),
        Err(e) => Err(e.class()),
    }
}

pub open spec fn classify_command(r: Result<Option<Command>>) -> SpecResult<Option<CommandModel>> {
    match r {
        Ok(Some(c)) => Ok(Some(c@)),
        Ok(None) => Ok(None),
        Err(e) => Err(e.class()),
    }
}

fn copy_bytes(v: &Vec<u8>) -> (w: Vec<u8>)
    ensures
        w@ == v@,
{
    let mut w: Vec<u8> = Vec::new();
    let mut i: usize = 0;
    while i < v.len()
        invariant
            i <= v@.len(),
            w@ == v@.subrange(0, i as int),
        decreases v@.len() - i,
    {
        w.push(v[i]);
        i = i + 1;
        assert(w@ =~= v@.subrange(0, i as int));
    }
    w
}

fn meta_error(message: &str) -> (e: Error)
    ensures
        e.class() == ErrorClass::MetaSyntax,
        e matches Error::MetaSyntaxError(text) && text@ == message@,
{
    Error::MetaSyntaxError(String::from_str(message))
}

fn meta_word_is(token: &Token, k: Keyword) -> (b: bool)
    ensures
        b == is_meta_word(token@, k),
{
    match token {
        Token::Meta(s) => is_keyword(s.as_slice(), k),
        _ => false,
    }
}

fn take_path(tokens: &mut Tokens, message: &str) -> (res: Result<Vec<u8>>)
    ensures
        match path_spec(old(tokens)@) {
            Ok(p) => res matches Ok(v) && v@ == p,
            Err(e) => res is Err && res->Err_0.class() == e,
        },
        old(tokens)@.len() > 0 ==> final(tokens)@ == old(tokens)@.drop_first(),
{
    match tokens.next() {
        Some(Token::Other(path)) => Ok(path),
        _ => Err(meta_error(message)),
    }
}

impl MachineState {
    /// `demo` or nothing; see `machine_state_spec`.
    pub fn parse(tokens: Tokens) -> (res: Result<Option<MachineState>>)
        ensures
            crate::errors::classify(res) == machine_state_spec(tokens@),
    {
        let mut tokens = tokens;
        match tokens.next() {
            Some(t) => {
                if t.text_is(Keyword::Demo) {
                    Ok(Some(MachineState::Demo))
                } else {
                    Err(meta_error("not a valid machine state identifier"))
                }
            },
            None => Ok(None),
        }
    }
}

impl Token {
    fn text_is(&self, k: Keyword) -> (b: bool)
        ensures
            b == is_word(self@, k),
    {
        match self {
            Token::Other(s) => is_keyword(s.as_slice(), k),
            _ => false,
        }
    }
}

impl MetaCommand {
    /// A load address, where there is one, is a twelve-bit address.
    pub open spec fn wf(&self) -> bool {
        match self {
            MetaCommand::LoadRom(_, Some(a)) => a.wf(),
            _ => true,
        }
    }

    /// A copy of the command.
    pub fn duplicate(&self) -> (c: MetaCommand)
        ensures
            c@ == self@,
            self.wf() ==> c.wf(),
    {
        match self {
            MetaCommand::Reset(s) => MetaCommand::Reset(*s),
            MetaCommand::LoadRom(p, a) => MetaCommand::LoadRom(copy_bytes(p), *a),
            MetaCommand::DumpMachine(p) => MetaCommand::DumpMachine(copy_bytes(p)),
            MetaCommand::LoadMachine(p) => MetaCommand::LoadMachine(copy_bytes(p)),
            MetaCommand::UnloadRom => MetaCommand::UnloadRom,
            MetaCommand::Tick => MetaCommand::Tick,
            MetaCommand::Play => MetaCommand::Play,
            MetaCommand::Pause => MetaCommand::Pause,
            MetaCommand::PlayPause => MetaCommand::PlayPause,
        }
    }

    /// Parses a meta command; see `meta_command_spec`.
    pub fn parse(tokens: Tokens) -> (res: Result<MetaCommand>)
        ensures
            classify_view(res) == meta_command_spec(tokens@),
            res matches Ok(m) ==> m.wf(),
    {
        let mut tokens = tokens;
        let ghost ts = tokens@;
        let t = match tokens.next() {
            Some(t) => t,
            None => {
                return Err(meta_error("expected meta command token"));
            },
        };
        if meta_word_is(&t, Keyword::Reset) {
            Ok(MetaCommand::Reset(MachineState::parse(tokens)?))
        } else if meta_word_is(&t, Keyword::LoadRom) {
            let path = take_path(&mut tokens, ":load requires a path")?;
            match tokens.next() {
                Some(a) => {
                    let address = a.to_address()?;
                    Ok(MetaCommand::LoadRom(path, Some(address)))
                },
                None => Ok(MetaCommand::LoadRom(path, None)),
            }
        } else if meta_word_is(&t, Keyword::UnloadRom) {
            Ok(MetaCommand::UnloadRom)
        } else if meta_word_is(&t, Keyword::Dump) {
            Ok(MetaCommand::DumpMachine(take_path(&mut tokens, ":dump requires a path")?))
        } else if meta_word_is(&t, Keyword::LoadMachine) {
            Ok(MetaCommand::LoadMachine(take_path(&mut tokens, ":load-machine requires a path")?))
        } else if meta_word_is(&t, Keyword::Tick) {
            Ok(MetaCommand::Tick)
        } else if meta_word_is(&t, Keyword::Play) {
            Ok(MetaCommand::Play)
        } else if meta_word_is(&t, Keyword::Pause) {
            Ok(MetaCommand::Pause)
        } else if meta_word_is(&t, Keyword::PlayPause) {
            Ok(MetaCommand::PlayPause)
        } else {
            Err(meta_error("invalid meta command"))
        }
    }
}

impl Command {
    /// Whether the command is well-formed.
    pub open spec fn wf(&self) -> bool {
        match self {
            Command::Instruction(i) => i.wf(),
            Command::Meta(m) => m.wf(),
        }
    }

    /// A copy of the command.
    pub fn duplicate(&self) -> (c: Command)
        ensures
            c@ == self@,
            self.wf() ==> c.wf(),
    {
        match self {
            Command::Meta(m) => Command::Meta(m.duplicate()),
            Command::Instruction(i) => Command::Instruction(*i),
        }
    }

    /// Parses a line entered at the prompt; see `command_spec`.
    pub fn parse(tokens: Tokens) -> (res: Result<Option<Command>>)
        ensures
            classify_command(res) == command_spec(tokens@),
            res matches Ok(Some(c)) ==> c.wf(),
    {
        let kind: u8 = match tokens.peek() {
            None | Some(Token::Empty) => 0,
            Some(Token::Meta(_)) => 1,
            Some(_) => 2,
        };
        if kind == 0 {
            Ok(None)
        } else if kind == 1 {
            Ok(Some(Command::Meta(MetaCommand::parse(tokens)?)))
        } else {
            Ok(Some(Command::Instruction(Instruction::parse(tokens)?)))
        }
    }

    /// The opcode of an instruction command that has one.
    pub fn opcode(&self) -> (o: Option<OpCode>)
        requires
            self.wf(),
        ensures
            match self {
                Command::Meta(_) => o is None,
                Command::Instruction(i) => match encode_spec(*i) {
                    Some(c) => o == Some(OpCode(Word(c as u16))),
                    None => o is None,
                },
            },
    {
        match self {
            Command::Meta(_) => None,
            Command::Instruction(instruction) => match OpCode::try_from_instruction(instruction) {
                Ok(opcode) => Some(opcode),
                Err(_) => None,
            },
        }
    }

    pub fn is_meta(&self) -> (b: bool)
        ensures
            b == (self is Meta),
    {
        match self {
            Command::Meta(_) => true,
            Command::Instruction(_) => false,
        }
    }
}

} // verus!
