//! Immediate values: a 32-bit word whose low bits tell the kind of value.

use vstd::prelude::*;

verus! {

/// How far a character's code is shifted to make room for its tag.
pub const CHAR_SHIFT: i32 = 8;

/// The tag in the low bits of a character.
pub const CHAR_TAG: i32 = 15;

/// How far a fixnum is shifted; its tag is the two zero bits that leaves.
pub const FX_SHIFT: i32 = 2;

/// The bits that are zero in a fixnum.
pub const FX_MASK: i32 = 0x03;

/// The word of the boolean false.
pub const FALSE: i32 = 0x2f;

/// The word of the boolean true.
pub const TRUE: i32 = 0x6f;

/// The word of the empty list.
pub const NIL: i32 = 0x3f;

/// A value that fits in one word with its tag.
#[derive(Clone, Copy, Debug, PartialEq, Eq, Structural)]
pub enum Immed {
    Fixnum(i32),
    Bool(bool),
    Char(u8),
    Nil,
}

/// The word that stands for an immediate.
pub open spec fn tagged(immed: Immed) -> i32 {
    match immed {
        Immed::Fixnum(n) => n.wrapping_mul(4),
        Immed::Bool(b) => if b {
            TRUE
        } else {
            FALSE
        },
        Immed::Char(c) => (c * 256 + CHAR_TAG) as i32,
        Immed::Nil => NIL,
    }
}

impl Immed {
    /// The word that stands for this immediate.
    pub fn value(&self) -> (word: i32)
        ensures
            word == tagged(*self),
    {
        match self {
            Immed::Fixnum(n) => n.wrapping_mul(4),
            Immed::Bool(b) => if *b {
                TRUE
            } else {
                FALSE
            },
            Immed::Char(c) => (*c as i32) * 256 + CHAR_TAG,
            Immed::Nil => NIL,
        }
    }
}

} // verus!
