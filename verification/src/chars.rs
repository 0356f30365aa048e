//! The validated 16-bit character scalar used by null-terminated firmware
//! strings.
//!
//! A `Char16` is a single UCS-2 code unit: any 16-bit value except the
//! UTF-16 surrogate range. The null scalar (value 0) is legal and marks the
//! end of a string.

use vstd::prelude::*;

verus! {

/// Truth that `code` is a legal UCS-2 code unit: anything outside the
/// UTF-16 surrogate range `0xD800..=0xDFFF`.
pub open spec fn char16_is_valid(code: u16) -> bool {
    code < 0xD800 || code > 0xDFFF
}

/// One UCS-2 code unit. The checked constructor rejects surrogate values,
/// so a `Char16` obtained from it always holds a complete character.
#[derive(Clone, Copy, Debug, PartialEq, Eq, Structural)]
pub struct Char16 {
    code: u16,
}

impl View for Char16 {
    type V = u16;

    closed spec fn view(&self) -> u16 {
        self.code
    }
}

impl Char16 {
    /// Checked conversion from a raw 16-bit value; rejects surrogates.
    pub fn from_u16(code: u16) -> (r: Option<Char16>)
        ensures
            r is Some <==> char16_is_valid(code),
            r is Some ==> r->0@ == code,
    {
        if code < 0xD800 || code > 0xDFFF {
            Some(Char16 { code })
        } else {
            None
        }
    }

    /// The null scalar, used as a string terminator.
    pub fn nul() -> (r: Char16)
        ensures
            r@ == 0u16,
    {
        Char16 { code: 0 }
    }

    /// The raw 16-bit value of this code unit.
    pub fn to_u16(&self) -> (r: u16)
        ensures
            r == self@,
    {
        self.code
    }

    /// The character this code unit stands for. A legal UCS-2 unit is a
    /// complete Unicode scalar, so the conversion never loses information.
    pub fn to_char(&self) -> (r: char)
        requires
            char16_is_valid(self@),
        ensures
            r as u32 == self@,
    {
        match char::from_u32(self.code as u32) {
            Some(c) => c,
            None => '\0',
        }
    }
}

/// Relies on char::from_u32: it returns `Some` exactly for values that are
/// Unicode scalars (at most 0x10FFFF and not in the surrogate range), and
/// the returned character casts back to the given value.
pub assume_specification[ char::from_u32 ](v: u32) -> (r: Option<char>)
    ensures
        r is Some <==> (v < 0xD800 || (0xE000 <= v && v <= 0x10FFFF)),
        r is Some ==> r->0 as u32 == v,
;

} // verus!
