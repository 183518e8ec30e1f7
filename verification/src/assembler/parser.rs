use vstd::prelude::*;

use crate::errors::{classify, Error, ErrorClass, Result};
use crate::machine::instruction::args::{
    BinaryOp, BinaryOpArgs, BranchArgs, Comparator, DrawArgs, IndexOp, IndexOpArgs, IndexSource,
    JumpArgs, RegisterArgs, Source, Target, Timer,
};
use crate::machine::instruction::op_code::{decode_result, OpCode};
use crate::machine::instruction::{Flow, Graphics, Instruction};
use crate::machine::types::Word;

use super::keyword::{is_keyword, keyword_text, Keyword};
use super::token::{token_address, token_byte, token_nibble, token_register, token_u16, Token, TokenModel};
use super::tokens::Tokens;

verus! {

type SpecResult<T> = core::result::Result<T, ErrorClass>;

/// The token at position `i`, if there is one.
pub open spec fn tok(ts: Seq<TokenModel>, i: int) -> Option<TokenModel> {
    if 0 <= i < ts.len() { Some(ts[i]) } else { None }
}

pub open spec fn is_word(t: TokenModel, k: Keyword) -> bool {
    t matches TokenModel::Other(s) && s == keyword_text(k)
}

/// A result location: `VT` and `VS` are the timers, other registers are
/// registers.
pub open spec fn target_of(t: TokenModel) -> SpecResult<Target> {
    match t {
        TokenModel::Register(s) => if s == keyword_text(Keyword::DelayTimer) {
            Ok(Target::Timer(Timer::Delay))
        } else if s == keyword_text(Keyword::SoundTimer) {
            Ok(Target::Timer(Timer::Sound))
        } else {
            match token_register(t) {
                Ok(r) => Ok(Target::Register(r)),
                Err(e) => Err(e),
            }
        },
        _ => Err(ErrorClass::Syntax),
    }
}

/// An operand: a timer, a register or a byte-sized number.
pub open spec fn source_of(t: TokenModel) -> SpecResult<Source> {
    match t {
        TokenModel::Register(s) => if s == keyword_text(Keyword::DelayTimer) {
            Ok(Source::Timer(Timer::Delay))
        } else if s == keyword_text(Keyword::SoundTimer) {
            Ok(Source::Timer(Timer::Sound))
        } else {
            match token_register(t) {
                Ok(r) => Ok(Source::Register(r)),
                Err(e) => Err(e),
            }
        },
        TokenModel::Hex(_) | TokenModel::Other(_) => match token_byte(t) {
            Ok(b) => Ok(Source::Byte(b)),
            Err(e) => Err(e),
        },
        _ => Err(ErrorClass::Syntax),
    }
}

/// The operation named by an operator word such as `=` or `+=`.
pub open spec fn binary_op_of(t: TokenModel) -> SpecResult<BinaryOp> {
    if is_word(t, Keyword::Assign) { Ok(BinaryOp::Assign) }
    else if is_word(t, Keyword::Add) { Ok(BinaryOp::Add) }
    else if is_word(t, Keyword::AddWrapping) { Ok(BinaryOp::AddWrapping) }
    else if is_word(t, Keyword::Subtract) { Ok(BinaryOp::Subtract) }
    else if is_word(t, Keyword::SubtractAlt) { Ok(BinaryOp::SubtractAlt) }
    else if is_word(t, Keyword::BitAnd) { Ok(BinaryOp::BitAnd) }
    else if is_word(t, Keyword::BitOr) { Ok(BinaryOp::BitOr) }
    else if is_word(t, Keyword::BitXor) { Ok(BinaryOp::BitXor) }
    else if is_word(t, Keyword::ShiftLeft) { Ok(BinaryOp::BitShiftLeft) }
    else if is_word(t, Keyword::ShiftRight) { Ok(BinaryOp::BitShiftRight) }
    else if is_word(t, Keyword::Random) { Ok(BinaryOp::Random) }
    else { Err(ErrorClass::Syntax) }
}

/// `!` after a branch compares for inequality; nothing compares for
/// equality.
pub open spec fn comparator_of(t: Option<TokenModel>) -> SpecResult<Comparator> {
    match t {
        Some(t) => if is_word(t, Keyword::Not) { Ok(Comparator::NotEqual) } else { Err(ErrorClass::Syntax) },
        None => Ok(Comparator::Equal),
    }
}

/// The operand of an index instruction: a register or an address.
pub open spec fn index_source_of(t: TokenModel) -> SpecResult<IndexSource> {
    match t {
        TokenModel::Register(_) => match token_register(t) {
            Ok(r) => Ok(IndexSource::Register(r)),
            Err(e) => Err(e),
        },
        TokenModel::Hex(_) | TokenModel::Other(_) => match token_address(t) {
            Ok(a) => Ok(IndexSource::Value(a)),
            Err(e) => Err(e),
        },
        _ => Err(ErrorClass::Syntax),
    }
}

pub open spec fn index_op_of(t: TokenModel) -> SpecResult<IndexOp> {
    if is_word(t, Keyword::Assign) { Ok(IndexOp::Assign) }
    else if is_word(t, Keyword::Add) { Ok(IndexOp::Add) }
    else { Err(ErrorClass::Syntax) }
}

/// The token at `i` must be present; a missing one is a syntax error.
pub open spec fn required<T>(ts: Seq<TokenModel>, i: int, read: spec_fn(TokenModel) -> SpecResult<T>) -> SpecResult<T> {
    match tok(ts, i) {
        Some(t) => read(t),
        None => Err(ErrorClass::Syntax),
    }
}

/// `target op source`
pub open spec fn binary_op_args_spec(ts: Seq<TokenModel>) -> SpecResult<BinaryOpArgs> {
    match required(ts, 0, |t| target_of(t)) {
        Err(e) => Err(e),
        Ok(target) => match required(ts, 1, |t| binary_op_of(t)) {
            Err(e) => Err(e),
            Ok(op) => match required(ts, 2, |t| source_of(t)) {
                Err(e) => Err(e),
                Ok(source) => Ok(BinaryOpArgs { target, source, op }),
            },
        },
    }
}

/// `address [register]`
pub open spec fn jump_args_spec(ts: Seq<TokenModel>) -> SpecResult<JumpArgs> {
    match required(ts, 0, |t| token_address(t)) {
        Err(e) => Err(e),
        Ok(address) => match tok(ts, 1) {
            None => Ok(JumpArgs { address, register: None }),
            Some(t) => match token_register(t) {
                Ok(r) => Ok(JumpArgs { address, register: Some(r) }),
                Err(e) => Err(e),
            },
        },
    }
}

/// `x y height`
pub open spec fn draw_args_spec(ts: Seq<TokenModel>) -> SpecResult<DrawArgs> {
    match required(ts, 0, |t| token_register(t)) {
        Err(e) => Err(e),
        Ok(x) => match required(ts, 1, |t| token_register(t)) {
            Err(e) => Err(e),
            Ok(y) => match required(ts, 2, |t| token_nibble(t)) {
                Err(e) => Err(e),
                Ok(height) => Ok(DrawArgs { x, y, height }),
            },
        },
    }
}

/// `register`
pub open spec fn register_args_spec(ts: Seq<TokenModel>) -> SpecResult<RegisterArgs> {
    match required(ts, 0, |t| token_register(t)) {
        Err(e) => Err(e),
        Ok(register) => Ok(RegisterArgs { register }),
    }
}

/// `lhs rhs [!]`
pub open spec fn branch_args_spec(ts: Seq<TokenModel>) -> SpecResult<BranchArgs> {
    match required(ts, 0, |t| source_of(t)) {
        Err(e) => Err(e),
        Ok(lhs) => match required(ts, 1, |t| source_of(t)) {
            Err(e) => Err(e),
            Ok(rhs) => match comparator_of(tok(ts, 2)) {
                Err(e) => Err(e),
                Ok(comparator) => Ok(BranchArgs { lhs, rhs, comparator }),
            },
        },
    }
}

/// `op source`, after `VI`
pub open spec fn index_args_spec(ts: Seq<TokenModel>) -> SpecResult<IndexOpArgs> {
    match required(ts, 0, |t| index_op_of(t)) {
        Err(e) => Err(e),
        Ok(op) => match required(ts, 1, |t| index_source_of(t)) {
            Err(e) => Err(e),
            Ok(source) => Ok(IndexOpArgs { source, op }),
        },
    }
}

/// `clear` or `draw x y height`, after `graphics`
pub open spec fn graphics_spec(ts: Seq<TokenModel>) -> SpecResult<Graphics> {
    match tok(ts, 0) {
        Some(t) => if is_word(t, Keyword::Clear) {
            Ok(Graphics::Clear)
        } else if is_word(t, Keyword::Draw) {
            match draw_args_spec(ts.skip(1)) {
                Ok(args) => Ok(Graphics::Draw { args }),
                Err(e) => Err(e),
            }
        } else {
            Err(ErrorClass::Syntax)
        },
        None => Err(ErrorClass::Syntax),
    }
}

pub open spec fn map_args<A>(r: SpecResult<A>, make: spec_fn(A) -> Instruction) -> SpecResult<Instruction> {
    match r {
        Ok(a) => Ok(make(a)),
        Err(e) => Err(e),
    }
}

/// The instruction a line of tokens spells. A line that starts with a
/// register other than `VI` is an arithmetic instruction; `VI` starts an
/// index instruction; a hexadecimal number is an opcode; otherwise the first
/// word names the instruction. Tokens after the instruction are ignored.
pub open spec fn instruction_spec(ts: Seq<TokenModel>) -> SpecResult<Instruction> {
    if ts.len() == 0 {
        Err(ErrorClass::Syntax)
    } else {
        let rest = ts.skip(1);
        let first = ts[0];
        match first {
            TokenModel::Register(s) => if s != keyword_text(Keyword::IndexRegister) {
                map_args(binary_op_args_spec(ts), |args| Instruction::Arithmetic { args })
            } else {
                map_args(index_args_spec(rest), |args| Instruction::Index { args })
            },
            TokenModel::Hex(_) => match token_u16(first) {
                Ok(code) => classify(decode_result(OpCode(Word(code)))),
                Err(e) => Err(e),
            },
            TokenModel::Other(_) => {
                if is_word(first, Keyword::Exit) {
                    Ok(Instruction::Exit)
                } else if is_word(first, Keyword::Graphics) {
                    match graphics_spec(rest) {
                        Ok(g) => Ok(Instruction::Graphics(g)),
                        Err(e) => Err(e),
                    }
                } else if is_word(first, Keyword::Return) {
                    Ok(Instruction::Flow(Flow::Return))
                } else if is_word(first, Keyword::Sys) {
                    map_args(jump_args_spec(rest), |args| Instruction::Flow(Flow::Sys { args }))
                } else if is_word(first, Keyword::Jump) {
                    map_args(jump_args_spec(rest), |args| Instruction::Flow(Flow::Jump { args }))
                } else if is_word(first, Keyword::Call) {
                    map_args(jump_args_spec(rest), |args| Instruction::Flow(Flow::Call { args }))
                } else if is_word(first, Keyword::Branch) {
                    map_args(branch_args_spec(rest), |args| Instruction::Flow(Flow::Branch { args }))
                } else if is_word(first, Keyword::Bcd) {
                    map_args(register_args_spec(rest), |args| Instruction::BinaryCodedDecimal { args })
                } else if is_word(first, Keyword::Font) {
                    map_args(register_args_spec(rest), |args| Instruction::Font { args })
                } else if is_word(first, Keyword::Key) {
                    match tok(ts, 1) {
                        Some(t) => if is_word(t, Keyword::Await) {
                            map_args(register_args_spec(ts.skip(2)), |args| Instruction::KeyAwait { args })
                        } else {
                            Err(ErrorClass::Syntax)
                        },
                        None => Err(ErrorClass::Syntax),
                    }
                } else {
                    Err(ErrorClass::Syntax)
                }
            },
            _ => Err(ErrorClass::Syntax),
        }
    }
}

fn syntax_error(message: &str) -> (e: Error)
    ensures
        e.class() == ErrorClass::Syntax,
        e matches Error::SyntaxError(text) && text@ == message@,
{
    Error::SyntaxError(String::from_str(message))
}

/// Takes the next token, which must be present.
fn next_required(tokens: &mut Tokens, message: &str) -> (res: Result<Token>)
    ensures
        old(tokens)@.len() == 0 ==> res is Err && res->Err_0.class() == ErrorClass::Syntax,
        old(tokens)@.len() > 0 ==> (res matches Ok(t) && t@ == old(tokens)@[0]),
        final(tokens)@ == if old(tokens)@.len() > 0 { old(tokens)@.drop_first() } else { old(tokens)@ },
{
    match tokens.next() {
        Some(t) => Ok(t),
        None => Err(syntax_error(message)),
    }
}

impl Target {
    /// The result location a token names; see `target_of`.
    pub fn from_token(token: &Token) -> (res: Result<Target>)
        ensures
            classify(res) == target_of(token@),
            res matches Ok(t) ==> t.wf(),
    {
        match token {
            Token::Register(s) => {
                if is_keyword(s.as_slice(), Keyword::DelayTimer) {
                    Ok(Target::Timer(Timer::Delay))
                } else if is_keyword(s.as_slice(), Keyword::SoundTimer) {
                    Ok(Target::Timer(Timer::Sound))
                } else {
                    Ok(Target::Register(token.to_register()?))
                }
            },
            _ => Err(syntax_error("expected target")),
        }
    }
}

impl Source {
    /// The operand a token names; see `source_of`.
    pub fn from_token(token: &Token) -> (res: Result<Source>)
        ensures
            classify(res) == source_of(token@),
            res matches Ok(s) ==> s.wf(),
    {
        match token {
            Token::Register(s) => {
                if is_keyword(s.as_slice(), Keyword::DelayTimer) {
                    Ok(Source::Timer(Timer::Delay))
                } else if is_keyword(s.as_slice(), Keyword::SoundTimer) {
                    Ok(Source::Timer(Timer::Sound))
                } else {
                    Ok(Source::Register(token.to_register()?))
                }
            },
            Token::Hex(_) | Token::Other(_) => Ok(Source::Byte(token.to_byte()?)),
            _ => Err(syntax_error("expected register or value")),
        }
    }
}

fn word_is(token: &Token, k: Keyword) -> (b: bool)
    ensures
        b == is_word(token@, k),
{
    match token {
        Token::Other(s) => is_keyword(s.as_slice(), k),
        _ => false,
    }
}

impl BinaryOp {
    /// The operation an operator word names; see `binary_op_of`.
    pub fn from_token(token: &Token) -> (res: Result<BinaryOp>)
        ensures
            classify(res) == binary_op_of(token@),
    {
        if word_is(token, Keyword::Assign) { Ok(BinaryOp::Assign) }
        else if word_is(token, Keyword::Add) { Ok(BinaryOp::Add) }
        else if word_is(token, Keyword::AddWrapping) { Ok(BinaryOp::AddWrapping) }
        else if word_is(token, Keyword::Subtract) { Ok(BinaryOp::Subtract) }
        else if word_is(token, Keyword::SubtractAlt) { Ok(BinaryOp::SubtractAlt) }
        else if word_is(token, Keyword::BitAnd) { Ok(BinaryOp::BitAnd) }
        else if word_is(token, Keyword::BitOr) { Ok(BinaryOp::BitOr) }
        else if word_is(token, Keyword::BitXor) { Ok(BinaryOp::BitXor) }
        else if word_is(token, Keyword::ShiftLeft) { Ok(BinaryOp::BitShiftLeft) }
        else if word_is(token, Keyword::ShiftRight) { Ok(BinaryOp::BitShiftRight) }
        else if word_is(token, Keyword::Random) { Ok(BinaryOp::Random) }
        else { Err(syntax_error("expected binary operation")) }
    }
}

impl Comparator {
    /// `!` or nothing; see `comparator_of`.
    pub fn from_token(token: Option<Token>) -> (res: Result<Comparator>)
        ensures
            classify(res) == comparator_of(match token { Some(t) => Some(t@), None => None }),
    {
        match token {
            Some(t) => if word_is(&t, Keyword::Not) {
                Ok(Comparator::NotEqual)
            } else {
                Err(syntax_error("expected a comparator"))
            },
            None => Ok(Comparator::Equal),
        }
    }
}

impl IndexSource {
    /// A register or an address; see `index_source_of`.
    pub fn from_token(token: &Token) -> (res: Result<IndexSource>)
        ensures
            classify(res) == index_source_of(token@),
            res matches Ok(s) ==> s.wf(),
    {
        match token {
            Token::Register(_) => Ok(IndexSource::Register(token.to_register()?)),
            Token::Hex(_) | Token::Other(_) => Ok(IndexSource::Value(token.to_address()?)),
            _ => Err(syntax_error("expected register or address")),
        }
    }
}

impl IndexOp {
    /// `=` or `+=`; see `index_op_of`.
    pub fn from_token(token: &Token) -> (res: Result<IndexOp>)
        ensures
            classify(res) == index_op_of(token@),
    {
        if word_is(token, Keyword::Assign) {
            Ok(IndexOp::Assign)
        } else if word_is(token, Keyword::Add) {
            Ok(IndexOp::Add)
        } else {
            Err(syntax_error("expected index operation"))
        }
    }
}

impl BinaryOpArgs {
    /// `target op source`; see `binary_op_args_spec`.
    pub fn parse(tokens: &mut Tokens) -> (res: Result<Self>)
        ensures
            classify(res) == binary_op_args_spec(old(tokens)@),
            res matches Ok(a) ==> a.wf(),
    {
        let ghost ts = tokens@;
        let t = next_required(tokens, "arithmetic requires a target")?;
        let target = Target::from_token(&t)?;
        let t = next_required(tokens, "arithmetic requires an operation")?;
        let op = BinaryOp::from_token(&t)?;
        let t = next_required(tokens, "arithmetic requires a source")?;
        let source = Source::from_token(&t)?;
        Ok(Self { target, source, op })
    }
}

impl JumpArgs {
    /// `address [register]`; see `jump_args_spec`.
    pub fn parse(tokens: &mut Tokens) -> (res: Result<Self>)
        ensures
            classify(res) == jump_args_spec(old(tokens)@),
            res matches Ok(a) ==> a.wf(),
    {
        let t = next_required(tokens, "expected an address")?;
        let address = t.to_address()?;
        let register = match tokens.next() {
            Some(t) => Some(t.to_register()?),
            None => None,
        };
        Ok(Self { address, register })
    }
}

impl DrawArgs {
    /// `x y height`; see `draw_args_spec`.
    pub fn parse(tokens: &mut Tokens) -> (res: Result<Self>)
        ensures
            classify(res) == draw_args_spec(old(tokens)@),
            res matches Ok(a) ==> a.wf(),
    {
        let t = next_required(tokens, "draw requires a register")?;
        let x = t.to_register()?;
        let t = next_required(tokens, "draw requires a second register")?;
        let y = t.to_register()?;
        let t = next_required(tokens, "draw requires a height")?;
        let height = t.to_nibble()?;
        Ok(Self { x, y, height })
    }
}

impl RegisterArgs {
    /// `register`; see `register_args_spec`.
    pub fn parse(tokens: &mut Tokens) -> (res: Result<Self>)
        ensures
            classify(res) == register_args_spec(old(tokens)@),
            res matches Ok(a) ==> a.wf(),
    {
        let t = next_required(tokens, "expected a register")?;
        let register = t.to_register()?;
        Ok(Self { register })
    }
}

impl BranchArgs {
    /// `lhs rhs [!]`; see `branch_args_spec`.
    pub fn parse(tokens: &mut Tokens) -> (res: Result<Self>)
        ensures
            classify(res) == branch_args_spec(old(tokens)@),
            res matches Ok(a) ==> a.wf(),
    {
        let t = next_required(tokens, "conditional requires a LHS expression")?;
        let lhs = Source::from_token(&t)?;
        let t = next_required(tokens, "conditional requires a RHS expression")?;
        let rhs = Source::from_token(&t)?;
        let comparator = Comparator::from_token(tokens.next())?;
        Ok(Self { lhs, rhs, comparator })
    }
}

impl IndexOpArgs {
    /// `op source`; see `index_args_spec`.
    pub fn parse(tokens: &mut Tokens) -> (res: Result<Self>)
        ensures
            classify(res) == index_args_spec(old(tokens)@),
            res matches Ok(a) ==> a.wf(),
    {
        let t = next_required(tokens, "index instruction requires an operation")?;
        let op = IndexOp::from_token(&t)?;
        let t = next_required(tokens, "index instruction requires a source")?;
        let source = IndexSource::from_token(&t)?;
        Ok(Self { source, op })
    }
}

impl Graphics {
    /// `clear` or `draw x y height`; see `graphics_spec`.
    pub fn parse(tokens: &mut Tokens) -> (res: Result<Self>)
        ensures
            classify(res) == graphics_spec(old(tokens)@),
            res matches Ok(g) ==> Instruction::Graphics(g).wf(),
    {
        match tokens.next() {
            Some(t) => {
                if word_is(&t, Keyword::Clear) {
                    Ok(Graphics::Clear)
                } else if word_is(&t, Keyword::Draw) {
                    Ok(Graphics::Draw { args: DrawArgs::parse(tokens)? })
                } else {
                    Err(syntax_error("unrecognized graphics instruction"))
                }
            },
            None => Err(syntax_error("expected graphics instruction")),
        }
    }
}

impl Instruction {
    /// Parses a line of assembler tokens; see `instruction_spec`.
    pub fn parse(tokens: Tokens) -> (res: Result<Instruction>)
        ensures
            classify(res) == instruction_spec(tokens@),
            res matches Ok(i) ==> i.wf(),
    {
        let mut tokens = tokens;
        Instruction::parse_from(&mut tokens)
    }

    /// Parses an instruction from the front of `tokens`.
    pub fn parse_from(tokens: &mut Tokens) -> (res: Result<Instruction>)
        ensures
            classify(res) == instruction_spec(old(tokens)@),
            res matches Ok(i) ==> i.wf(),
    {
        let ghost ts = tokens@;
        let arithmetic = match tokens.peek() {
            Some(Token::Register(s)) => !is_keyword(s.as_slice(), Keyword::IndexRegister),
            _ => false,
        };
        if arithmetic {
            return Ok(Instruction::Arithmetic { args: BinaryOpArgs::parse(tokens)? });
        }
        let first = match tokens.next() {
            Some(t) => t,
            None => {
                return Err(syntax_error("expected an instruction"));
            },
        };
        assert(tokens@ == ts.skip(1));
        match first {
            Token::Register(_) => Ok(Instruction::Index { args: IndexOpArgs::parse(tokens)? }),
            Token::Hex(_) => {
                let code = first.to_u16()?;
                Instruction::try_from_opcode(OpCode(Word(code)))
            },
            Token::Other(_) => {
                if word_is(&first, Keyword::Exit) {
                    Ok(Instruction::Exit)
                } else if word_is(&first, Keyword::Graphics) {
                    Ok(Instruction::Graphics(Graphics::parse(tokens)?))
                } else if word_is(&first, Keyword::Return) {
                    Ok(Instruction::Flow(Flow::Return))
                } else if word_is(&first, Keyword::Sys) {
                    Ok(Instruction::Flow(Flow::Sys { args: JumpArgs::parse(tokens)? }))
                } else if word_is(&first, Keyword::Jump) {
                    Ok(Instruction::Flow(Flow::Jump { args: JumpArgs::parse(tokens)? }))
                } else if word_is(&first, Keyword::Call) {
                    Ok(Instruction::Flow(Flow::Call { args: JumpArgs::parse(tokens)? }))
                } else if word_is(&first, Keyword::Branch) {
                    Ok(Instruction::Flow(Flow::Branch { args: BranchArgs::parse(tokens)? }))
                } else if word_is(&first, Keyword::Bcd) {
                    Ok(Instruction::BinaryCodedDecimal { args: RegisterArgs::parse(tokens)? })
                } else if word_is(&first, Keyword::Font) {
                    Ok(Instruction::Font { args: RegisterArgs::parse(tokens)? })
                } else if word_is(&first, Keyword::Key) {
                    match tokens.next() {
                        Some(t) => {
                            if word_is(&t, Keyword::Await) {
                                assert(tokens@ == ts.skip(2));
                                Ok(Instruction::KeyAwait { args: RegisterArgs::parse(tokens)? })
                            } else {
                                Err(syntax_error("expected `await` after `key`"))
                            }
                        },
                        None => Err(syntax_error("expected `await` after `key`")),
                    }
                } else {
                    Err(syntax_error("unrecognized instruction"))
                }
            },
            _ => Err(syntax_error("expected an instruction")),
        }
    }
}

impl OpCode {
    /// Reads an opcode written as a hexadecimal number, `0x` first.
    pub fn parse(tokens: Tokens) -> (res: Result<OpCode>)
        ensures
            tokens@.len() > 0 && tokens@[0] is Hex ==>
                classify(res) == match token_u16(tokens@[0]) {
                    Ok(code) => Ok(OpCode(Word(code))),
                    Err(e) => Err(e),
                },
            !(tokens@.len() > 0 && tokens@[0] is Hex) ==>
                res is Err && res->Err_0.class() == ErrorClass::OpCodeSyntax,
    {
        let mut tokens = tokens;
        match tokens.next() {
            Some(t) => match t {
                Token::Hex(_) => Ok(OpCode(Word(t.to_u16()?))),
                _ => Err(Error::OpCodeSyntaxError(String::from_str("expected a hexadecimal opcode"))),
            },
            None => Err(Error::OpCodeSyntaxError(String::from_str("expected a hexadecimal opcode"))),
        }
    }
}

} // verus!
