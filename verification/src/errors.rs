//! Numeric error codes shared by the three stages.

use vstd::prelude::*;
use crate::text::{decimal, push_decimal};

verus! {

/// The numeric code of an error kind, rendered as `E<n>`.
#[derive(Debug, PartialEq)]
pub enum Code {
    ErrCode(usize),
}

impl Clone for Code {
    fn clone(&self) -> (r: Self)
        ensures
            r == *self,
    {
        match self {
            Code::ErrCode(code) => Code::ErrCode(*code),
        }
    }
}

impl Code {
    /// The number that this code carries.
    pub open spec fn number(&self) -> int {
        match self {
            Code::ErrCode(code) => *code as int,
        }
    }

    /// The text that a diagnostic shows for this code: `E` and the number in decimal.
    pub open spec fn text(&self) -> Seq<char> {
        seq!['E'] + decimal(self.number())
    }

    /// The number as a signed machine integer: itself where it fits, else its low bits.
    pub open spec fn signed(&self) -> isize {
        match self {
            Code::ErrCode(code) => *code as isize,
        }
    }

    /// The code as a signed integer, as a script sees it in slot `-1`.
    pub fn as_isize(&self) -> (r: isize)
        ensures
            r == self.signed(),
            self.number() <= isize::MAX ==> r as int == self.number(),
    {
        match self {
            Code::ErrCode(code) => *code as isize,
        }
    }

    /// Renders the code as `E<n>`.
    pub fn to_string(&self) -> (r: String)
        ensures
            r@ == self.text(),
    {
        let mut out = String::new();
        out.push('E');
        match self {
            Code::ErrCode(code) => push_decimal(&mut out, *code as u128),
        }
        out
    }
}

} // verus!
