//! Error codes and the tagged result that every boundary entry point returns.
use vstd::prelude::*;

verus! {

/// The error type of arkworks' canonical (de)serialization, whose variants
/// the boundary maps onto error codes.
#[verifier::external_type_specification]
pub struct ExSerializationError(ark_serialize::SerializationError);

/// The I/O error that `SerializationError::IoError` carries.
#[verifier::external_type_specification]
#[verifier::external_body]
pub struct ExIoError(std::io::Error);

/// The stable numeric error codes of the boundary.
#[derive(Debug, Clone, Copy, PartialEq, Eq, Structural)]
pub enum CErrorCode {
    NoError,
    SerializationErrorNotEnoughSpace,
    SerializationErrorInvalidData,
    SerializationErrorUnexpectedFlags,
    SerializationErrorIoError,
    InvalidKeys,
}

impl CErrorCode {
    /// The number that stands for the code on the wire.
    pub open spec fn spec_code(self) -> u32 {
        match self {
            CErrorCode::NoError => 0,
            CErrorCode::SerializationErrorNotEnoughSpace => 1,
            CErrorCode::SerializationErrorInvalidData => 2,
            CErrorCode::SerializationErrorUnexpectedFlags => 3,
            CErrorCode::SerializationErrorIoError => 4,
            CErrorCode::InvalidKeys => 5,
        }
    }

    /// The number that stands for the code on the wire.
    pub fn code(&self) -> (r: u32)
        ensures
            r == self.spec_code(),
    {
        match self {
            CErrorCode::NoError => 0,
            CErrorCode::SerializationErrorNotEnoughSpace => 1,
            CErrorCode::SerializationErrorInvalidData => 2,
            CErrorCode::SerializationErrorUnexpectedFlags => 3,
            CErrorCode::SerializationErrorIoError => 4,
            CErrorCode::InvalidKeys => 5,
        }
    }

    /// Whether the code is one of the four that stand for a serialization error.
    pub open spec fn is_serialization_error(self) -> bool {
        1 <= self.spec_code() <= 4
    }
}

/// The code that stands for a serialization error: one variant to one code.
pub open spec fn code_of_serialization_error(e: ark_serialize::SerializationError) -> CErrorCode {
    match e {
        ark_serialize::SerializationError::NotEnoughSpace => CErrorCode::SerializationErrorNotEnoughSpace,
        ark_serialize::SerializationError::InvalidData => CErrorCode::SerializationErrorInvalidData,
        ark_serialize::SerializationError::UnexpectedFlags => CErrorCode::SerializationErrorUnexpectedFlags,
        ark_serialize::SerializationError::IoError(_) => CErrorCode::SerializationErrorIoError,
    }
}

impl From<ark_serialize::SerializationError> for CErrorCode {
    fn from(value: ark_serialize::SerializationError) -> (r: CErrorCode) {
        match value {
            ark_serialize::SerializationError::NotEnoughSpace => CErrorCode::SerializationErrorNotEnoughSpace,
            ark_serialize::SerializationError::InvalidData => CErrorCode::SerializationErrorInvalidData,
            ark_serialize::SerializationError::UnexpectedFlags => CErrorCode::SerializationErrorUnexpectedFlags,
            ark_serialize::SerializationError::IoError(_) => CErrorCode::SerializationErrorIoError,
        }
    }
}

impl vstd::std_specs::convert::FromSpecImpl<ark_serialize::SerializationError> for CErrorCode {
    open spec fn obeys_from_spec() -> bool {
        true
    }

    open spec fn from_spec(v: ark_serialize::SerializationError) -> CErrorCode {
        code_of_serialization_error(v)
    }
}

/// The result of a boundary entry point: `value` means something only when
/// `err_code` is `NoError`; otherwise it holds a fixed zero value.
#[derive(Debug, Clone, Copy, PartialEq, Eq)]
pub struct CReturn<T> {
    pub value: T,
    pub err_code: CErrorCode,
}

} // verus!
