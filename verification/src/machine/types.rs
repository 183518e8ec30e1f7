use vstd::prelude::*;

use crate::errors::{Error, Result};

verus! {

/// The machine's timers count down in single bytes.
pub type Timer = u8;

/// A 4-bit value, held in the low half of a byte.
#[derive(Clone, Copy, Debug, PartialEq, Eq, Structural)]
pub struct Nibble(pub u8);

impl Nibble {
    /// The value fits in four bits.
    pub open spec fn wf(self) -> bool {
        self.0 < 16
    }

    /// Accepts `value` exactly when it fits in four bits.
    pub fn try_from_u8(value: u8) -> (res: Result<Nibble>)
        ensures
            match res {
                Ok(n) => value < 16 && n.0 == value && n.wf(),
                Err(e) => value >= 16 && (e matches Error::IntSizeError(s, v) && v == value
                    && s@ == "4 bit nibble"@),
            },
    {
        if value < 16 {
            Ok(Nibble(value))
        } else {
            Err(Error::IntSizeError(String::from_str("4 bit nibble"), value as u32))
        }
    }

    pub fn value(&self) -> (v: u8)
        ensures
            v == self.0,
    {
        self.0
    }

    pub fn as_index(&self) -> (v: usize)
        ensures
            v == self.0,
    {
        self.0 as usize
    }
}

/// An 8-bit value.
#[derive(Clone, Copy, Debug, PartialEq, Eq, Structural)]
pub struct Byte(pub u8);

impl Byte {
    pub fn from_u8(value: u8) -> (b: Byte)
        ensures
            b.0 == value,
    {
        Byte(value)
    }

    pub fn value(&self) -> (v: u8)
        ensures
            v == self.0,
    {
        self.0
    }

    pub fn as_index(&self) -> (v: usize)
        ensures
            v == self.0,
    {
        self.0 as usize
    }
}

/// A 12-bit memory address.
#[derive(Clone, Copy, Debug, PartialEq, Eq, Structural)]
pub struct Address(pub u16);

impl Address {
    /// The value fits in twelve bits.
    pub open spec fn wf(self) -> bool {
        self.0 < 0x1000
    }

    /// The address zero.
    pub fn new() -> (a: Address)
        ensures
            a.0 == 0,
            a.wf(),
    {
        Address(0)
    }

    pub fn from_u8(value: u8) -> (a: Address)
        ensures
            a.0 == value,
            a.wf(),
    {
        Address(value as u16)
    }

    /// Accepts `value` exactly when it fits in twelve bits.
    pub fn try_from_u16(value: u16) -> (res: Result<Address>)
        ensures
            match res {
                Ok(a) => value < 0x1000 && a.0 == value && a.wf(),
                Err(e) => value >= 0x1000 && (e matches Error::IntSizeError(s, v) && v == value
                    && s@ == "12 bit address"@),
            },
    {
        if value < 0x1000 {
            Ok(Address(value))
        } else {
            Err(Error::IntSizeError(String::from_str("12 bit address"), value as u32))
        }
    }

    /// Accepts `value` exactly when it fits in twelve bits; the number
    /// reported on failure is `value` cut to 32 bits.
    pub fn try_from_usize(value: usize) -> (res: Result<Address>)
        ensures
            match res {
                Ok(a) => value < 0x1000 && a.0 == value && a.wf(),
                Err(e) => value >= 0x1000 && (e matches Error::IntSizeError(s, v)
                    && v == value as u32 && s@ == "12 bit address"@),
            },
    {
        if value < 0x1000 {
            Ok(Address(value as u16))
        } else {
            Err(Error::IntSizeError(String::from_str("12 bit address"), value as u32))
        }
    }

    pub fn value(&self) -> (v: u16)
        ensures
            v == self.0,
    {
        self.0
    }

    pub fn as_index(&self) -> (v: usize)
        ensures
            v == self.0,
    {
        self.0 as usize
    }

    /// The `size` memory cells that start at this address.
    pub fn as_range(&self, size: usize) -> (r: core::ops::Range<usize>)
        requires
            self.0 + size <= usize::MAX,
        ensures
            r.start == self.0,
            r.end == self.0 + size,
    {
        let start = self.0 as usize;
        start..start + size
    }

    /// Moves the address forward by `offset`; twelve-bit arithmetic does
    /// not allow it to pass the last address.
    pub fn advance(&mut self, offset: u16)
        requires
            old(self).0 + offset < 0x1000,
        ensures
            final(self).0 == old(self).0 + offset,
    {
        self.0 = self.0 + offset;
    }

    /// Moves the address to the next instruction, two bytes on.
    pub fn step(&mut self)
        requires
            old(self).0 + 2 < 0x1000,
        ensures
            final(self).0 == old(self).0 + 2,
    {
        self.0 = self.0 + 2;
    }

    /// Moves the address back to the previous instruction, two bytes back.
    pub fn step_back(&mut self)
        requires
            old(self).0 >= 2,
        ensures
            final(self).0 == old(self).0 - 2,
    {
        self.0 = self.0 - 2;
    }
}

/// A 16-bit value.
#[derive(Clone, Copy, Debug, PartialEq, Eq, Structural)]
pub struct Word(pub u16);

impl Word {
    pub fn from_u16(value: u16) -> (w: Word)
        ensures
            w.0 == value,
    {
        Word(value)
    }

    pub fn value(&self) -> (v: u16)
        ensures
            v == self.0,
    {
        self.0
    }
}

/// One of the sixteen general purpose registers `V0` to `VF`.
#[derive(Clone, Copy, Debug, PartialEq, Eq, Structural)]
pub struct Register(pub Nibble);

impl Register {
    pub open spec fn wf(self) -> bool {
        self.0.wf()
    }

    /// The register's number as a plain integer.
    pub open spec fn id(self) -> u8 {
        self.0.0
    }

    /// Accepts `value` exactly when it names one of the sixteen registers.
    pub fn try_from_u8(value: u8) -> (res: Result<Register>)
        ensures
            match res {
                Ok(r) => value < 16 && r.id() == value && r.wf(),
                Err(e) => value >= 16 && (e matches Error::IntSizeError(s, v) && v == value
                    && s@ == "4 bit nibble"@),
            },
    {
        let nibble = Nibble::try_from_u8(value)?;
        Ok(Register(nibble))
    }

    pub fn value(&self) -> (v: u8)
        ensures
            v == self.id(),
    {
        self.0.0
    }

    pub fn as_index(&self) -> (v: usize)
        ensures
            v == self.id(),
    {
        self.0.0 as usize
    }
}

/// Stepping forward to the next instruction and back again returns to the
/// same address.
pub proof fn lemma_step_then_step_back(a: Address, b: Address, c: Address)
    requires
        a.0 + 2 < 0x1000,
        b.0 == a.0 + 2,
        c.0 == b.0 - 2,
    ensures
        c == a,
{
}

} // verus!
