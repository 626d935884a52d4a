//! Error codes the script exits with.
use vstd::prelude::*;
use crate::sys::SysErrorKind;

verus! {

/// Why the script rejects the transaction; each has its own exit code.
#[derive(Clone, Copy, Debug, PartialEq, Eq, Structural)]
pub enum Error {
    SysIndexOutOfBound,
    SysItemMissing,
    SysLengthNotEnough,
    SysEncoding,
    SysWaitFailure,
    SysInvalidFd,
    SysOtherEndClosed,
    SysMaxVmsSpawned,
    SysMaxFdsCreated,
    SysTypeIdError,
    SyscallUnknown,
    InvalidArgs,
    InvalidTypeId,
    InvalidMetaData,
    InvalidSupply,
    ImmutableSupplyMode,
    AuthorityMissing,
    AuthorityFailed,
}

impl Error {
    /// The exit code of each error.
    pub open spec fn code_of(self) -> i8 {
        match self {
            Self::SysIndexOutOfBound => 1,
            Self::SysItemMissing => 2,
            Self::SysLengthNotEnough => 3,
            Self::SysEncoding => 4,
            Self::SysWaitFailure => 5,
            Self::SysInvalidFd => 6,
            Self::SysOtherEndClosed => 7,
            Self::SysMaxVmsSpawned => 8,
            Self::SysMaxFdsCreated => 9,
            Self::SysTypeIdError => 10,
            Self::SyscallUnknown => 11,
            Self::InvalidArgs => 20,
            Self::InvalidTypeId => 21,
            Self::InvalidMetaData => 30,
            Self::InvalidSupply => 31,
            Self::ImmutableSupplyMode => 32,
            Self::AuthorityMissing => 50,
            Self::AuthorityFailed => 51,
        }
    }

    /// The exit code the script ends with on this error.
    pub fn code(self) -> (r: i8)
        ensures
            r == self.code_of(),
    {
        match self {
            Self::SysIndexOutOfBound => 1,
            Self::SysItemMissing => 2,
            Self::SysLengthNotEnough => 3,
            Self::SysEncoding => 4,
            Self::SysWaitFailure => 5,
            Self::SysInvalidFd => 6,
            Self::SysOtherEndClosed => 7,
            Self::SysMaxVmsSpawned => 8,
            Self::SysMaxFdsCreated => 9,
            Self::SysTypeIdError => 10,
            Self::SyscallUnknown => 11,
            Self::InvalidArgs => 20,
            Self::InvalidTypeId => 21,
            Self::InvalidMetaData => 30,
            Self::InvalidSupply => 31,
            Self::ImmutableSupplyMode => 32,
            Self::AuthorityMissing => 50,
            Self::AuthorityFailed => 51,
        }
    }
}

/// No two errors share an exit code, and none exits with `0`, the code of success.
pub proof fn lemma_codes_distinct_and_nonzero(a: Error, b: Error)
    ensures
        a.code_of() == b.code_of() ==> a == b,
        a.code_of() != 0,
{
}

impl From<Error> for i8 {
    fn from(error: Error) -> (r: i8) {
        error.code()
    }
}

impl vstd::std_specs::convert::FromSpecImpl<Error> for i8 {
    open spec fn obeys_from_spec() -> bool {
        true
    }

    open spec fn from_spec(error: Error) -> i8 {
        error.code_of()
    }
}

/// The error a syscall failure is reported as.
pub open spec fn sys_error_of(kind: SysErrorKind) -> Error {
    match kind {
        SysErrorKind::IndexOutOfBound => Error::SysIndexOutOfBound,
        SysErrorKind::ItemMissing => Error::SysItemMissing,
        SysErrorKind::LengthNotEnough(_) => Error::SysLengthNotEnough,
        SysErrorKind::Encoding => Error::SysEncoding,
        SysErrorKind::WaitFailure => Error::SysWaitFailure,
        SysErrorKind::InvalidFd => Error::SysInvalidFd,
        SysErrorKind::OtherEndClosed => Error::SysOtherEndClosed,
        SysErrorKind::MaxVmsSpawned => Error::SysMaxVmsSpawned,
        SysErrorKind::MaxFdsCreated => Error::SysMaxFdsCreated,
        SysErrorKind::TypeIDError => Error::SysTypeIdError,
        SysErrorKind::Unknown(_) => Error::SyscallUnknown,
    }
}

impl From<SysErrorKind> for Error {
    fn from(error: SysErrorKind) -> (r: Error) {
        match error {
            SysErrorKind::IndexOutOfBound => Self::SysIndexOutOfBound,
            SysErrorKind::ItemMissing => Self::SysItemMissing,
            SysErrorKind::LengthNotEnough(_) => Self::SysLengthNotEnough,
            SysErrorKind::Encoding => Self::SysEncoding,
            SysErrorKind::WaitFailure => Self::SysWaitFailure,
            SysErrorKind::InvalidFd => Self::SysInvalidFd,
            SysErrorKind::OtherEndClosed => Self::SysOtherEndClosed,
            SysErrorKind::MaxVmsSpawned => Self::SysMaxVmsSpawned,
            SysErrorKind::MaxFdsCreated => Self::SysMaxFdsCreated,
            SysErrorKind::TypeIDError => Self::SysTypeIdError,
            SysErrorKind::Unknown(_) => Self::SyscallUnknown,
        }
    }
}

impl vstd::std_specs::convert::FromSpecImpl<SysErrorKind> for Error {
    open spec fn obeys_from_spec() -> bool {
        true
    }

    open spec fn from_spec(error: SysErrorKind) -> Error {
        sys_error_of(error)
    }
}

} // verus!
