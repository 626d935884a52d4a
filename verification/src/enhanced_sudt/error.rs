//! Error codes the script exits with.
use vstd::prelude::*;
use crate::sys::SysErrorKind;

verus! {

/// Why the script rejects the transaction; each has its own exit code.
#[derive(Clone, Copy, Debug, PartialEq, Eq, Structural)]
pub enum Error {
    Syscall,
    SysIndexOutOfBound,
    SysItemMissing,
    SysLengthNotEnough,
    SysEncoding,
    SysWaitFailure,
    SysInvalidFd,
    SysOtherEndClosed,
    SysMaxVmsSpawned,
    SysMaxFdsCreated,
    InvalidArgs,
    AmountEncoding,
    AmountOverflow,
    SupplyOverflow,
    SupplyUnderflow,
    InvalidMetaData,
    MetaMissing,
    MetaNotUnique,
    MetaInputMissing,
    MetaOutputMissing,
    MetaStateMismatch,
    AuthorityMissing,
    AuthorityFailed,
    UnsupportedAuthorityLocation,
    MetaLockNotAllowed,
}

impl Error {
    /// The exit code of each error.
    pub open spec fn code_of(self) -> i8 {
        match self {
            Self::Syscall => 1,
            Self::SysIndexOutOfBound => 17,
            Self::SysItemMissing => 18,
            Self::SysLengthNotEnough => 19,
            Self::SysEncoding => 20,
            Self::SysWaitFailure => 21,
            Self::SysInvalidFd => 22,
            Self::SysOtherEndClosed => 23,
            Self::SysMaxVmsSpawned => 24,
            Self::SysMaxFdsCreated => 25,
            Self::InvalidArgs => 2,
            Self::AmountEncoding => 3,
            Self::AmountOverflow => 4,
            Self::SupplyOverflow => 5,
            Self::SupplyUnderflow => 6,
            Self::InvalidMetaData => 7,
            Self::MetaMissing => 8,
            Self::MetaNotUnique => 9,
            Self::MetaInputMissing => 10,
            Self::MetaOutputMissing => 11,
            Self::MetaStateMismatch => 12,
            Self::AuthorityMissing => 13,
            Self::AuthorityFailed => 14,
            Self::UnsupportedAuthorityLocation => 15,
            Self::MetaLockNotAllowed => 16,
        }
    }

    /// The exit code the script ends with on this error.
    pub fn code(self) -> (r: i8)
        ensures
            r == self.code_of(),
    {
        match self {
            Self::Syscall => 1,
            Self::SysIndexOutOfBound => 17,
            Self::SysItemMissing => 18,
            Self::SysLengthNotEnough => 19,
            Self::SysEncoding => 20,
            Self::SysWaitFailure => 21,
            Self::SysInvalidFd => 22,
            Self::SysOtherEndClosed => 23,
            Self::SysMaxVmsSpawned => 24,
            Self::SysMaxFdsCreated => 25,
            Self::InvalidArgs => 2,
            Self::AmountEncoding => 3,
            Self::AmountOverflow => 4,
            Self::SupplyOverflow => 5,
            Self::SupplyUnderflow => 6,
            Self::InvalidMetaData => 7,
            Self::MetaMissing => 8,
            Self::MetaNotUnique => 9,
            Self::MetaInputMissing => 10,
            Self::MetaOutputMissing => 11,
            Self::MetaStateMismatch => 12,
            Self::AuthorityMissing => 13,
            Self::AuthorityFailed => 14,
            Self::UnsupportedAuthorityLocation => 15,
            Self::MetaLockNotAllowed => 16,
        }
    }
}

/// No two errors share an exit code, and none exits with `0`, the code of success.
pub proof fn lemma_codes_distinct_and_nonzero(a: Error, b: Error)
    ensures
        a.code_of() == b.code_of() ==> a == b,
        a.code_of() != 0,
{
}

impl From<Error> for i8 {
    fn from(error: Error) -> (r: i8) {
        error.code()
    }
}

impl vstd::std_specs::convert::FromSpecImpl<Error> for i8 {
    open spec fn obeys_from_spec() -> bool {
        true
    }

    open spec fn from_spec(error: Error) -> i8 {
        error.code_of()
    }
}

/// The error a syscall failure is reported as.
pub open spec fn sys_error_of(kind: SysErrorKind) -> Error {
    match kind {
        SysErrorKind::IndexOutOfBound => Error::SysIndexOutOfBound,
        SysErrorKind::ItemMissing => Error::SysItemMissing,
        SysErrorKind::LengthNotEnough(_) => Error::SysLengthNotEnough,
        SysErrorKind::Encoding => Error::SysEncoding,
        SysErrorKind::WaitFailure => Error::SysWaitFailure,
        SysErrorKind::InvalidFd => Error::SysInvalidFd,
        SysErrorKind::OtherEndClosed => Error::SysOtherEndClosed,
        SysErrorKind::MaxVmsSpawned => Error::SysMaxVmsSpawned,
        SysErrorKind::MaxFdsCreated => Error::SysMaxFdsCreated,
        SysErrorKind::TypeIDError => Error::Syscall,
        SysErrorKind::Unknown(_) => Error::Syscall,
    }
}

impl From<SysErrorKind> for Error {
    fn from(error: SysErrorKind) -> (r: Error) {
        match error {
            SysErrorKind::IndexOutOfBound => Self::SysIndexOutOfBound,
            SysErrorKind::ItemMissing => Self::SysItemMissing,
            SysErrorKind::LengthNotEnough(_) => Self::SysLengthNotEnough,
            SysErrorKind::Encoding => Self::SysEncoding,
            SysErrorKind::WaitFailure => Self::SysWaitFailure,
            SysErrorKind::InvalidFd => Self::SysInvalidFd,
            SysErrorKind::OtherEndClosed => Self::SysOtherEndClosed,
            SysErrorKind::MaxVmsSpawned => Self::SysMaxVmsSpawned,
            SysErrorKind::MaxFdsCreated => Self::SysMaxFdsCreated,
            SysErrorKind::TypeIDError => Self::Syscall,
            SysErrorKind::Unknown(_) => Self::Syscall,
        }
    }
}

impl vstd::std_specs::convert::FromSpecImpl<SysErrorKind> for Error {
    open spec fn obeys_from_spec() -> bool {
        true
    }

    open spec fn from_spec(error: SysErrorKind) -> Error {
        sys_error_of(error)
    }
}

} // verus!
