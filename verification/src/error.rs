//! The two ways in which the codec can fail.

use vstd::prelude::*;

verus! {

/// The bytes at hand are not a message of the schema that was asked for:
/// they end too early, or hold a malformed key, length, number or text.
#[derive(Clone, Copy, Debug, PartialEq, Eq)]
pub struct DecodeFailure;

/// The byte buffer could not take a message. Encoding into a growing vector
/// never reports it; the type keeps the shape of the encoding functions'
/// results.
#[derive(Clone, Copy, Debug, PartialEq, Eq)]
pub struct EncodeFailure;

} // verus!
