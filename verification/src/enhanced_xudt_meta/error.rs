//! Error codes the script exits with.
use vstd::prelude::*;

verus! {

/// Why the script rejects the transaction; each has its own exit code.
#[derive(Clone, Copy, Debug, PartialEq, Eq, Structural)]
pub enum Error {
    InvalidArgs,
    InvalidTypeId,
    InvalidMetaData,
    InvalidSupply,
    ImmutableSupplyMode,
    AuthorityMissing,
    AuthorityFailed,
    Syscall,
    AccessListRequired,
    AccessModeTokenCells,
}

impl Error {
    /// The exit code of each error.
    pub open spec fn code_of(self) -> i8 {
        match self {
            Self::InvalidArgs => 1,
            Self::InvalidTypeId => 2,
            Self::InvalidMetaData => 3,
            Self::InvalidSupply => 4,
            Self::ImmutableSupplyMode => 5,
            Self::AuthorityMissing => 6,
            Self::AuthorityFailed => 7,
            Self::Syscall => 8,
            Self::AccessListRequired => 9,
            Self::AccessModeTokenCells => 10,
        }
    }

    /// The exit code the script ends with on this error.
    pub fn code(self) -> (r: i8)
        ensures
            r == self.code_of(),
    {
        match self {
            Self::InvalidArgs => 1,
            Self::InvalidTypeId => 2,
            Self::InvalidMetaData => 3,
            Self::InvalidSupply => 4,
            Self::ImmutableSupplyMode => 5,
            Self::AuthorityMissing => 6,
            Self::AuthorityFailed => 7,
            Self::Syscall => 8,
            Self::AccessListRequired => 9,
            Self::AccessModeTokenCells => 10,
        }
    }
}

/// No two errors share an exit code, and none exits with `0`, the code of success.
pub proof fn lemma_codes_distinct_and_nonzero(a: Error, b: Error)
    ensures
        a.code_of() == b.code_of() ==> a == b,
        a.code_of() != 0,
{
}

impl From<Error> for i8 {
    fn from(error: Error) -> (r: i8) {
        error.code()
    }
}

impl vstd::std_specs::convert::FromSpecImpl<Error> for i8 {
    open spec fn obeys_from_spec() -> bool {
        true
    }

    open spec fn from_spec(error: Error) -> i8 {
        error.code_of()
    }
}

} // verus!
