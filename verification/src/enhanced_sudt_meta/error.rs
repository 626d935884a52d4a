//! Error codes the script exits with.
use vstd::prelude::*;
use crate::sys::SysErrorKind;

verus! {

/// Why the script rejects the transaction; each has its own exit code.
#[derive(Clone, Copy, Debug, PartialEq, Eq, Structural)]
pub enum Error {
    InvalidArgs,
    InvalidTypeId,
    InvalidMetaData,
    InvalidSupply,
    ImmutableSupplyMode,
    AuthorityMissing,
    AuthorityFailed,
    Syscall,
}

impl Error {
    /// The exit code of each error.
    pub open spec fn code_of(self) -> i8 {
        match self {
            Self::InvalidArgs => 1,
            Self::InvalidTypeId => 2,
            Self::InvalidMetaData => 3,
            Self::InvalidSupply => 4,
            Self::ImmutableSupplyMode => 5,
            Self::AuthorityMissing => 6,
            Self::AuthorityFailed => 7,
            Self::Syscall => 8,
        }
    }

    /// The exit code the script ends with on this error.
    pub fn code(self) -> (r: i8)
        ensures
            r == self.code_of(),
    {
        match self {
            Self::InvalidArgs => 1,
            Self::InvalidTypeId => 2,
            Self::InvalidMetaData => 3,
            Self::InvalidSupply => 4,
            Self::ImmutableSupplyMode => 5,
            Self::AuthorityMissing => 6,
            Self::AuthorityFailed => 7,
            Self::Syscall => 8,
        }
    }
}

/// No two errors share an exit code, and none exits with `0`, the code of success.
pub proof fn lemma_codes_distinct_and_nonzero(a: Error, b: Error)
    ensures
        a.code_of() == b.code_of() ==> a == b,
        a.code_of() != 0,
{
}

impl From<Error> for i8 {
    fn from(error: Error) -> (r: i8) {
        error.code()
    }
}

impl vstd::std_specs::convert::FromSpecImpl<Error> for i8 {
    open spec fn obeys_from_spec() -> bool {
        true
    }

    open spec fn from_spec(error: Error) -> i8 {
        error.code_of()
    }
}

/// The error a syscall failure is reported as.
pub open spec fn sys_error_of(kind: SysErrorKind) -> Error {
    match kind {
        SysErrorKind::IndexOutOfBound => Error::Syscall,
        SysErrorKind::ItemMissing => Error::Syscall,
        SysErrorKind::LengthNotEnough(_) => Error::Syscall,
        SysErrorKind::Encoding => Error::Syscall,
        SysErrorKind::WaitFailure => Error::Syscall,
        SysErrorKind::InvalidFd => Error::Syscall,
        SysErrorKind::OtherEndClosed => Error::Syscall,
        SysErrorKind::MaxVmsSpawned => Error::Syscall,
        SysErrorKind::MaxFdsCreated => Error::Syscall,
        SysErrorKind::TypeIDError => Error::Syscall,
        SysErrorKind::Unknown(_) => Error::Syscall,
    }
}

impl From<SysErrorKind> for Error {
    fn from(error: SysErrorKind) -> (r: Error) {
        match error {
            SysErrorKind::IndexOutOfBound => Self::Syscall,
            SysErrorKind::ItemMissing => Self::Syscall,
            SysErrorKind::LengthNotEnough(_) => Self::Syscall,
            SysErrorKind::Encoding => Self::Syscall,
            SysErrorKind::WaitFailure => Self::Syscall,
            SysErrorKind::InvalidFd => Self::Syscall,
            SysErrorKind::OtherEndClosed => Self::Syscall,
            SysErrorKind::MaxVmsSpawned => Self::Syscall,
            SysErrorKind::MaxFdsCreated => Self::Syscall,
            SysErrorKind::TypeIDError => Self::Syscall,
            SysErrorKind::Unknown(_) => Self::Syscall,
        }
    }
}

impl vstd::std_specs::convert::FromSpecImpl<SysErrorKind> for Error {
    open spec fn obeys_from_spec() -> bool {
        true
    }

    open spec fn from_spec(error: SysErrorKind) -> Error {
        sys_error_of(error)
    }
}

} // verus!
