//! The ASCII codes the grammar is written in.

use vstd::prelude::*;

verus! {

pub const TAB: u8 = 0x09;

pub const SPACE: u8 = 0x20;

pub const BANG: u8 = 0x21;

pub const HASH: u8 = 0x23;

pub const DIGIT_0: u8 = 0x30;

pub const DIGIT_9: u8 = 0x39;

pub const LESS: u8 = 0x3c;

pub const EQUALS: u8 = 0x3d;

pub const GREATER: u8 = 0x3e;

pub const UPPER_A: u8 = 0x41;

pub const UPPER_F: u8 = 0x46;

pub const UPPER_P: u8 = 0x50;

pub const UPPER_S: u8 = 0x53;

pub const UPPER_X: u8 = 0x58;

pub const UPPER_Y: u8 = 0x59;

pub const UPPER_Z: u8 = 0x5a;

pub const LOWER_A: u8 = 0x61;

pub const LOWER_E: u8 = 0x65;

pub const LOWER_F: u8 = 0x66;

pub const LOWER_L: u8 = 0x6c;

pub const LOWER_R: u8 = 0x72;

pub const LOWER_S: u8 = 0x73;

pub const LOWER_T: u8 = 0x74;

pub const LOWER_U: u8 = 0x75;

pub const LOWER_X: u8 = 0x78;

pub const LOWER_Z: u8 = 0x7a;

/// A decimal digit.
pub open spec fn is_digit(byte: u8) -> bool {
    DIGIT_0 <= byte <= DIGIT_9
}

/// A letter or a decimal digit.
pub open spec fn is_alphanumeric(byte: u8) -> bool {
    is_digit(byte) || UPPER_A <= byte <= UPPER_Z || LOWER_A <= byte <= LOWER_Z
}

/// Tells whether `byte` is a letter or a decimal digit.
pub fn alphanumeric(byte: u8) -> (yes: bool)
    ensures
        yes == is_alphanumeric(byte),
{
    (DIGIT_0 <= byte && byte <= DIGIT_9) || (UPPER_A <= byte && byte <= UPPER_Z) || (LOWER_A
        <= byte && byte <= LOWER_Z)
}

} // verus!
