//! Errors reported by the chain's syscalls and by the shared script utilities, as plain values.
use vstd::prelude::*;

verus! {

/// The kind of error a CKB syscall reported.
#[derive(Clone, Copy, Debug, PartialEq, Eq, Structural)]
pub enum SysErrorKind {
    IndexOutOfBound,
    ItemMissing,
    LengthNotEnough(usize),
    Encoding,
    WaitFailure,
    InvalidFd,
    OtherEndClosed,
    MaxVmsSpawned,
    MaxFdsCreated,
    TypeIDError,
    Unknown(u64),
}

/// The kind of error the shared script utilities (authority checks, token sums, supply
/// arithmetic) reported.
#[derive(Clone, Copy, Debug, PartialEq, Eq, Structural)]
pub enum ScriptError {
    AuthorityMissing,
    AuthorityFailed,
    UnsupportedAuthorityLocation,
    InvalidAuthority,
    SyscallUnknown,
    AmountEncoding,
    AmountOverflow,
    SupplyOverflow,
    SupplyUnderflow,
    Other,
}

} // verus!
