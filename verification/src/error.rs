//! Everything that can go wrong while decoding a mangled name.

use vstd::prelude::*;

verus! {

/// A decode or configuration failure.
///
/// Decoding is all-or-nothing: the decoder returns the first failure it
/// meets and never hands back a partial symbol.
#[derive(Debug, PartialEq)]
pub enum DemangleError {
    /// The input ended where the grammar required one more character.
    UnexpectedEndOfInput,
    /// A decimal number was required and no digit was present.
    ExpectedNumber,
    /// A decimal number does not fit the machine's word size.
    NumberTooLarge,
    /// A length prefix promises more characters than the input still has.
    StringLengthExceedsInput,
    /// The character selects no type production.
    UnknownTypeCode(char),
    /// The character after a named aggregate's components is neither `S` nor `E`.
    InvalidTypeKind(char),
    /// The character after `G` names no global kind.
    InvalidGlobalKind(char),
    /// The input holds no leading length-prefixed name component.
    NoSymbolNameFound,
    /// The character after the name components is neither `F` nor `G`.
    ExpectedFunctionOrGlobalDiscriminator(char),
    /// The type after the name components is not a function type.
    ExpectedFunctionType,
    /// A function was required but the input encodes a global.
    ExpectedFunctionGotGlobal,
    /// The requested display format names no rendering style.
    InvalidDisplayFormat(String),
}

} // verus!
