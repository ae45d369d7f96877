use vstd::prelude::*;

verus! {

/// Why a measurement could not be turned into a result.
#[derive(Debug, PartialEq, Eq)]
pub enum ProbeError {
    /// A token that should hold an unsigned decimal integer does not; the
    /// token itself is carried.
    ParseFailure(String),
    /// The input is well formed but cannot be used: too few fields, or a
    /// counter that went down or out of range.
    UnexpectedContent(String),
    /// The caller handed over measurements in the wrong order.
    InvalidInput(String),
}

} // verus!
