use vstd::prelude::*;

use crate::errors::{Error, ErrorClass, IntErrorKind, Result};
use crate::machine::types::{Address, Byte, Nibble, Register};

use super::number::{parse_unsigned, parse_unsigned_spec};

verus! {

/// One whitespace-separated word of assembler text, sorted by its first
/// characters. `Hex` holds the digits after `0x`, `Register` the character
/// after `V`; the others hold the whole word.
#[derive(Debug)]
pub enum Token {
    Empty,
    Meta(Vec<u8>),
    Hex(Vec<u8>),
    Register(Vec<u8>),
    Other(Vec<u8>),
}

/// A token as mathematical values.
pub enum TokenModel {
    Empty,
    Meta(Seq<u8>),
    Hex(Seq<u8>),
    Register(Seq<u8>),
    Other(Seq<u8>),
}

impl View for Token {
    type V = TokenModel;

    open spec fn view(&self) -> TokenModel {
        match self {
            Token::Empty => TokenModel::Empty,
            Token::Meta(s) => TokenModel::Meta(s@),
            Token::Hex(s) => TokenModel::Hex(s@),
            Token::Register(s) => TokenModel::Register(s@),
            Token::Other(s) => TokenModel::Other(s@),
        }
    }
}

/// How a word is sorted: empty words are `None`; `0x` starts a hexadecimal
/// number; `V` and one more character name a register; `:` starts a meta
/// command; anything else is `Other`.
pub open spec fn classify(word: Seq<u8>) -> TokenModel {
    if word.len() == 0 {
        TokenModel::Empty
    } else if word[0] == '0' as u8 {
        if word.len() > 1 && word[1] == 'x' as u8 {
            TokenModel::Hex(word.subrange(2, word.len() as int))
        } else {
            TokenModel::Other(word)
        }
    } else if word[0] == 'V' as u8 && word.len() == 2 {
        TokenModel::Register(word.subrange(1, 2))
    } else if word[0] == ':' as u8 {
        TokenModel::Meta(word)
    } else {
        TokenModel::Other(word)
    }
}

/// The number a token holds, decimal for plain words and hexadecimal after
/// `0x`, no greater than `max`; other tokens are a syntax error.
pub open spec fn token_number(t: TokenModel, max: int) -> core::result::Result<int, ErrorClass> {
    let read = match t {
        TokenModel::Other(s) => Some(parse_unsigned_spec(s, 10, max)),
        TokenModel::Hex(s) => Some(parse_unsigned_spec(s, 16, max)),
        _ => None,
    };
    match read {
        Some(Ok(v)) => Ok(v),
        Some(Err(kind)) => Err(ErrorClass::ParseInt(kind)),
        None => Err(ErrorClass::Syntax),
    }
}

/// A number token that must fit in `bits` bits (read as a number of at most
/// `max` first).
pub open spec fn token_bounded(t: TokenModel, max: int, limit: int) -> core::result::Result<int, ErrorClass> {
    match token_number(t, max) {
        Ok(v) => if v < limit { Ok(v) } else { Err(ErrorClass::IntSize(v as u32)) },
        Err(e) => Err(e),
    }
}

/// The register a token names: `V` and one hexadecimal digit.
pub open spec fn token_register(t: TokenModel) -> core::result::Result<Register, ErrorClass> {
    match t {
        TokenModel::Register(s) => match parse_unsigned_spec(s, 16, 0xFF) {
            Ok(v) => if v < 16 { Ok(Register(Nibble(v as u8))) } else { Err(ErrorClass::IntSize(v as u32)) },
            Err(kind) => Err(ErrorClass::ParseInt(kind)),
        },
        _ => Err(ErrorClass::Syntax),
    }
}

pub open spec fn token_u8(t: TokenModel) -> core::result::Result<u8, ErrorClass> {
    match token_number(t, 0xFF) {
        Ok(v) => Ok(v as u8),
        Err(e) => Err(e),
    }
}

pub open spec fn token_u16(t: TokenModel) -> core::result::Result<u16, ErrorClass> {
    match token_number(t, 0xFFFF) {
        Ok(v) => Ok(v as u16),
        Err(e) => Err(e),
    }
}

pub open spec fn token_nibble(t: TokenModel) -> core::result::Result<Nibble, ErrorClass> {
    match token_bounded(t, 0xFF, 16) {
        Ok(v) => Ok(Nibble(v as u8)),
        Err(e) => Err(e),
    }
}

pub open spec fn token_address(t: TokenModel) -> core::result::Result<Address, ErrorClass> {
    match token_bounded(t, 0xFFFF, 0x1000) {
        Ok(v) => Ok(Address(v as u16)),
        Err(e) => Err(e),
    }
}

pub open spec fn token_byte(t: TokenModel) -> core::result::Result<Byte, ErrorClass> {
    match token_number(t, 0xFF) {
        Ok(v) => Ok(Byte(v as u8)),
        Err(e) => Err(e),
    }
}

fn copy_range(word: &[u8], start: usize, end: usize) -> (v: Vec<u8>)
    requires
        start <= end <= word@.len(),
    ensures
        v@ == word@.subrange(start as int, end as int),
{
    let mut v: Vec<u8> = Vec::new();
    let mut i = start;
    while i < end
        invariant
            start <= i <= end <= word@.len(),
            v@ == word@.subrange(start as int, i as int),
        decreases end - i,
    {
        v.push(word[i]);
        i = i + 1;
        assert(v@ =~= word@.subrange(start as int, i as int));
    }
    v
}

fn number_error(kind: IntErrorKind) -> (e: Error)
    ensures
        e.class() == ErrorClass::ParseInt(kind),
{
    Error::ParseIntError(kind)
}

impl Token {
    /// Sorts a word; see `classify`.
    pub fn from_word(word: &[u8]) -> (t: Token)
        ensures
            t@ == classify(word@),
    {
        assert(word@.subrange(0, word@.len() as int) =~= word@);
        if word.len() == 0 {
            Token::Empty
        } else if word[0] == '0' as u8 {
            if word.len() > 1 && word[1] == 'x' as u8 {
                Token::Hex(copy_range(word, 2, word.len()))
            } else {
                Token::Other(copy_range(word, 0, word.len()))
            }
        } else if word[0] == 'V' as u8 && word.len() == 2 {
            Token::Register(copy_range(word, 1, 2))
        } else if word[0] == ':' as u8 {
            Token::Meta(copy_range(word, 0, word.len()))
        } else {
            Token::Other(copy_range(word, 0, word.len()))
        }
    }

    /// The token's text: empty for `None`.
    pub fn text(&self) -> (s: &[u8])
        ensures
            match self@ {
                TokenModel::Empty => s@.len() == 0,
                TokenModel::Meta(t) | TokenModel::Hex(t) | TokenModel::Register(t) | TokenModel::Other(t) => s@ == t,
            },
    {
        match self {
            Token::Empty => &[],
            Token::Meta(s) | Token::Hex(s) | Token::Register(s) | Token::Other(s) => s.as_slice(),
        }
    }

    fn number(&self, max: u32) -> (res: Result<u32>)
        requires
            max <= 0xFFFF,
        ensures
            classify_u32(res) == token_number(self@, max as int),
            res matches Ok(v) ==> v <= max,
    {
        let read = match self {
            Token::Other(s) => parse_unsigned(s.as_slice(), 10, max),
            Token::Hex(s) => parse_unsigned(s.as_slice(), 16, max),
            _ => {
                return Err(Error::SyntaxError(String::from_str("expected decimal or hex value")));
            },
        };
        match read {
            Ok(v) => Ok(v),
            Err(kind) => Err(number_error(kind)),
        }
    }

    /// The token as a byte-sized number.
    pub fn to_u8(&self) -> (res: Result<u8>)
        ensures
            crate::errors::classify(res) == token_u8(self@),
    {
        let v = self.number(0xFF)?;
        Ok(v as u8)
    }

    /// The token as a word-sized number.
    pub fn to_u16(&self) -> (res: Result<u16>)
        ensures
            crate::errors::classify(res) == token_u16(self@),
    {
        let v = self.number(0xFFFF)?;
        Ok(v as u16)
    }

    /// The token as a four-bit number.
    pub fn to_nibble(&self) -> (res: Result<Nibble>)
        ensures
            crate::errors::classify(res) == token_nibble(self@),
            res matches Ok(n) ==> n.wf(),
            res matches Err(Error::IntSizeError(text, _)) ==> text@ == "nibble"@,
    {
        let v = self.number(0xFF)?;
        if v < 16 {
            Ok(Nibble(v as u8))
        } else {
            Err(Error::IntSizeError(String::from_str("nibble"), v))
        }
    }

    /// The token as a twelve-bit address.
    pub fn to_address(&self) -> (res: Result<Address>)
        ensures
            crate::errors::classify(res) == token_address(self@),
            res matches Ok(a) ==> a.wf(),
            res matches Err(Error::IntSizeError(text, _)) ==> text@ == "word"@,
    {
        let v = self.number(0xFFFF)?;
        if v < 0x1000 {
            Ok(Address(v as u16))
        } else {
            Err(Error::IntSizeError(String::from_str("word"), v))
        }
    }

    /// The token as a byte.
    pub fn to_byte(&self) -> (res: Result<Byte>)
        ensures
            crate::errors::classify(res) == token_byte(self@),
    {
        let v = self.number(0xFF)?;
        Ok(Byte(v as u8))
    }

    /// The register the token names.
    pub fn to_register(&self) -> (res: Result<Register>)
        ensures
            crate::errors::classify(res) == token_register(self@),
            res matches Ok(r) ==> r.wf(),
            res matches Err(Error::IntSizeError(text, _)) ==> text@ == "4 bit nibble"@,
    {
        match self {
            Token::Register(s) => {
                let v = match parse_unsigned(s.as_slice(), 16, 0xFF) {
                    Ok(v) => v,
                    Err(kind) => {
                        return Err(number_error(kind));
                    },
                };
                if v < 16 {
                    Ok(Register(Nibble(v as u8)))
                } else {
                    Err(Error::IntSizeError(String::from_str("4 bit nibble"), v))
                }
            },
            _ => Err(Error::SyntaxError(String::from_str("expected register"))),
        }
    }
}

pub open spec fn classify_u32(r: Result<u32>) -> core::result::Result<int, ErrorClass> {
    match r {
        Ok(v) => Ok(v as int),
        Err(e) => Err(e.class()),
    }
}

} // verus!
