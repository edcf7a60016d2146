//! The ways in which building a value from text can fail.

use vstd::prelude::*;

verus! {

/// Why a buffer access or a parse was refused.
#[derive(Clone, Copy, Debug, PartialEq, Eq, Structural)]
pub enum ErrorKind {
    /// The text holds a byte outside `0..=127`.
    NonAsciiInput,
    /// The text is longer than a buffer can hold.
    CapacityExceeded,
    /// The index lies at or beyond the buffer's length.
    IndexOutOfRange,
    /// The text starts with neither a comparison operator nor a letter.
    InvalidComparator,
    /// The atom does not hold exactly one `/`.
    MissingCategoryOrName,
    /// Nothing stands before the `/`.
    EmptyCategory,
    /// Nothing stands where the package name belongs.
    EmptyName,
    /// The flag token holds no name.
    EmptyFlagToken,
}

} // verus!
