//! Errors of the conversions between wire messages and domain values.
use vstd::prelude::*;

use crate::codec::DecodeError;

verus! {

/// Why a wire message does not convert to a domain value.
#[derive(Debug, PartialEq, Eq)]
pub enum ConversionError {
    /// A wire integer does not fit the narrower domain type.
    TryFromInt(std::num::TryFromIntError),
    /// A byte field does not hold a value of the nested layout.
    Format(DecodeError),
    /// The public key field does not hold 32 bytes; it carries the field.
    PubkeyDeserialization(Vec<u8>),
}

/// An error of the service layer.
#[derive(Debug, PartialEq, Eq)]
pub enum Error {
    ConversionError(ConversionError),
}

impl From<ConversionError> for Error {
    fn from(from: ConversionError) -> (r: Error)
        ensures
            r == Error::ConversionError(from),
    {
        Error::ConversionError(from)
    }
}

impl vstd::std_specs::convert::FromSpecImpl<ConversionError> for Error {
    open spec fn obeys_from_spec() -> bool {
        true
    }

    open spec fn from_spec(v: ConversionError) -> Error {
        Error::ConversionError(v)
    }
}

} // verus!
