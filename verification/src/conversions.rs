//! Checked narrowing conversions from `usize` to the fixed-width integer
//! types used inside page headers and slots.

use vstd::prelude::*;

verus! {

/// Error returned when a value does not fit in the narrower target type.
#[derive(Debug, Clone, Copy, PartialEq, Eq, Structural)]
pub enum ConversionError {
    /// The value exceeds the maximum of the target type.
    Overflow,
}

/// Checked narrowing of an unsigned machine integer.
pub trait UsizeConversion: Sized + Copy {
    /// The mathematical value of the integer.
    spec fn as_int(self) -> int;

    /// Narrows to `u16`, failing when the value exceeds `u16::MAX`.
    fn to_u16(self) -> (r: Result<u16, ConversionError>)
        ensures
            match r {
                Ok(v) => self.as_int() == v as int,
                Err(e) => self.as_int() > u16::MAX as int && e == ConversionError::Overflow,
            },
    ;

    /// Narrows to `u32`, failing when the value exceeds `u32::MAX`.
    fn to_u32(self) -> (r: Result<u32, ConversionError>)
        ensures
            match r {
                Ok(v) => self.as_int() == v as int,
                Err(e) => self.as_int() > u32::MAX as int && e == ConversionError::Overflow,
            },
    ;
}

impl UsizeConversion for usize {
    open spec fn as_int(self) -> int {
        self as int
    }

    fn to_u16(self) -> (r: Result<u16, ConversionError>) {
        if self > u16::MAX as usize {
            Err(ConversionError::Overflow)
        } else {
            Ok(self as u16)
        }
    }

    fn to_u32(self) -> (r: Result<u32, ConversionError>) {
        if self > u32::MAX as usize {
            Err(ConversionError::Overflow)
        } else {
            Ok(self as u32)
        }
    }
}

} // verus!
