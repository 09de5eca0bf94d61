//! What the library reports when it turns an input down.

use vstd::prelude::*;
use crate::digits::{decimal, push_decimal};
use crate::text::{push_str, text_of};

verus! {

/// An argument that the library could not accept. Each of these ends a run
/// before or while it reads its input.
#[derive(Debug, PartialEq, Eq)]
pub enum Error {
    /// Neither a number from 0 to 255 nor the name of a level.
    InvalidLevel(String),
    /// Not the number of a named level.
    UnnamedLevel(u8),
    /// Not the name of an output format.
    InvalidFormat(String),
    /// Not one of the six comparison operators.
    InvalidComparitor(String),
    /// A comparison that holds no operator.
    InvalidComparison(String),
    /// An operand that is compared with a small unsigned integer and is none.
    OperandNotSmallUint(String),
    /// An operand that is compared with a number and is none.
    OperandNotNumber(String),
}

impl Error {
    /// What a user is told of this error.
    pub open spec fn text(self) -> Seq<char> {
        match self {
            Error::InvalidLevel(s) => "Invalid level value: '"@ + s@ + "'"@,
            Error::UnnamedLevel(n) => decimal(n as nat)
                + " does not correspond to a valid named log level."@,
            Error::InvalidFormat(s) => "Invalid format value: '"@ + s@ + "'"@,
            Error::InvalidComparitor(s) => "Invalid comparitor: '"@ + s@ + "'"@,
            Error::InvalidComparison(s) => "Invalid comparison syntax of:"@ + s@,
            Error::OperandNotSmallUint(s) => "Invalid operand for a small unsigned integer: '"@
                + s@ + "'"@,
            Error::OperandNotNumber(s) => "Invalid operand for a number: '"@ + s@ + "'"@,
        }
    }

    /// What a user is told of this error.
    pub fn message(&self) -> (r: String)
        ensures
            r@ == self.text(),
    {
        let mut out: Vec<char> = Vec::new();
        match self {
            Error::InvalidLevel(s) => {
                push_str(&mut out, "Invalid level value: '");
                push_str(&mut out, s.as_str());
                push_str(&mut out, "'");
            },
            Error::UnnamedLevel(n) => {
                push_decimal(&mut out, *n as u64);
                push_str(&mut out, " does not correspond to a valid named log level.");
            },
            Error::InvalidFormat(s) => {
                push_str(&mut out, "Invalid format value: '");
                push_str(&mut out, s.as_str());
                push_str(&mut out, "'");
            },
            Error::InvalidComparitor(s) => {
                push_str(&mut out, "Invalid comparitor: '");
                push_str(&mut out, s.as_str());
                push_str(&mut out, "'");
            },
            Error::InvalidComparison(s) => {
                push_str(&mut out, "Invalid comparison syntax of:");
                push_str(&mut out, s.as_str());
            },
            Error::OperandNotSmallUint(s) => {
                push_str(&mut out, "Invalid operand for a small unsigned integer: '");
                push_str(&mut out, s.as_str());
                push_str(&mut out, "'");
            },
            Error::OperandNotNumber(s) => {
                push_str(&mut out, "Invalid operand for a number: '");
                push_str(&mut out, s.as_str());
                push_str(&mut out, "'");
            },
        }
        text_of(&out)
    }
}

} // verus!
