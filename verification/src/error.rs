//! The error taxonomy: one variant per failure, each with a stable number.

use vstd::prelude::*;

verus! {

/// Why an entry point refused a call.
#[derive(Clone, Copy, Debug, PartialEq, Eq, Structural, Hash)]
pub enum Error {
    AlreadyInitialized,
    NotInitialized,
    AlreadyExists,
    NotFound,
    FundsNotLocked,
    DeadlineNotPassed,
    Unauthorized,
    InvalidAmount,
    InsufficientBalance,
    InvalidFeeRate,
    Paused,
    CircuitOpen,
    RateLimit,
    Cooldown,
    Reentrancy,
    Overflow,
    BatchInvalidSize,
    DuplicateId,
    ProgramAlreadyExists,
}

impl Error {
    /// The number under which the variant is reported; it never changes
    /// between versions.
    pub open spec fn spec_code(self) -> u32 {
        match self {
            Error::AlreadyInitialized => 1,
            Error::NotInitialized => 2,
            Error::AlreadyExists => 3,
            Error::NotFound => 4,
            Error::FundsNotLocked => 5,
            Error::DeadlineNotPassed => 6,
            Error::Unauthorized => 7,
            Error::InvalidAmount => 8,
            Error::InsufficientBalance => 9,
            Error::InvalidFeeRate => 10,
            Error::Paused => 11,
            Error::CircuitOpen => 12,
            Error::RateLimit => 13,
            Error::Cooldown => 14,
            Error::Reentrancy => 15,
            Error::Overflow => 16,
            Error::BatchInvalidSize => 17,
            Error::DuplicateId => 18,
            Error::ProgramAlreadyExists => 19,
        }
    }

    /// The variant's number.
    #[verifier::when_used_as_spec(spec_code)]
    pub fn code(self) -> (c: u32)
        ensures
            c == self.spec_code(),
            1 <= c <= 19,
    {
        match self {
            Error::AlreadyInitialized => 1,
            Error::NotInitialized => 2,
            Error::AlreadyExists => 3,
            Error::NotFound => 4,
            Error::FundsNotLocked => 5,
            Error::DeadlineNotPassed => 6,
            Error::Unauthorized => 7,
            Error::InvalidAmount => 8,
            Error::InsufficientBalance => 9,
            Error::InvalidFeeRate => 10,
            Error::Paused => 11,
            Error::CircuitOpen => 12,
            Error::RateLimit => 13,
            Error::Cooldown => 14,
            Error::Reentrancy => 15,
            Error::Overflow => 16,
            Error::BatchInvalidSize => 17,
            Error::DuplicateId => 18,
            Error::ProgramAlreadyExists => 19,
        }
    }

    /// The variant with number `code`, if there is one.
    pub fn from_code(code: u32) -> (e: Option<Error>)
        ensures
            e matches Some(v) ==> v.spec_code() == code,
            e is Some <==> 1 <= code <= 19,
    {
        match code {
            1 => Some(Error::AlreadyInitialized),
            2 => Some(Error::NotInitialized),
            3 => Some(Error::AlreadyExists),
            4 => Some(Error::NotFound),
            5 => Some(Error::FundsNotLocked),
            6 => Some(Error::DeadlineNotPassed),
            7 => Some(Error::Unauthorized),
            8 => Some(Error::InvalidAmount),
            9 => Some(Error::InsufficientBalance),
            10 => Some(Error::InvalidFeeRate),
            11 => Some(Error::Paused),
            12 => Some(Error::CircuitOpen),
            13 => Some(Error::RateLimit),
            14 => Some(Error::Cooldown),
            15 => Some(Error::Reentrancy),
            16 => Some(Error::Overflow),
            17 => Some(Error::BatchInvalidSize),
            18 => Some(Error::DuplicateId),
            19 => Some(Error::ProgramAlreadyExists),
            _ => None,
        }
    }
}

/// Two different variants never share a number.
pub proof fn lemma_codes_are_distinct(a: Error, b: Error)
    ensures
        a.spec_code() == b.spec_code() ==> a == b,
{
}

/// Why a batch registration was refused.
#[derive(Clone, Copy, Debug, PartialEq, Eq, Structural, PartialOrd, Ord, Hash)]
pub enum BatchError {
    InvalidBatchSize,
    ProgramAlreadyExists,
    DuplicateProgramId,
}

impl BatchError {
    /// The number under which the failure is reported: that of its entry in
    /// the general taxonomy.
    pub fn code(self) -> (c: u32)
        ensures
            c == self.spec_to_error().spec_code(),
            c == match self {
                BatchError::InvalidBatchSize => 17u32,
                BatchError::ProgramAlreadyExists => 19u32,
                BatchError::DuplicateProgramId => 18u32,
            },
    {
        match self {
            BatchError::InvalidBatchSize => 17,
            BatchError::ProgramAlreadyExists => 19,
            BatchError::DuplicateProgramId => 18,
        }
    }

    /// The entry of the general taxonomy that stands for this failure.
    pub open spec fn spec_to_error(self) -> Error {
        match self {
            BatchError::InvalidBatchSize => Error::BatchInvalidSize,
            BatchError::ProgramAlreadyExists => Error::ProgramAlreadyExists,
            BatchError::DuplicateProgramId => Error::DuplicateId,
        }
    }

    /// The entry of the general taxonomy that stands for this failure.
    #[verifier::when_used_as_spec(spec_to_error)]
    pub fn to_error(self) -> (e: Error)
        ensures
            e == self.spec_to_error(),
    {
        match self {
            BatchError::InvalidBatchSize => Error::BatchInvalidSize,
            BatchError::ProgramAlreadyExists => Error::ProgramAlreadyExists,
            BatchError::DuplicateProgramId => Error::DuplicateId,
        }
    }
}

} // verus!
