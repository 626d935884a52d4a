//! Metadata configuration flags.
use vstd::prelude::*;

verus! {

/// Track total supply in metadata.
pub const CONFIG_SUPPLY_TRACKED: u8 = 0b0000_0001;

/// Enable AccessList checks (xUDT).
pub const CONFIG_ACCESS_ENABLED: u8 = 0b0000_0010;

/// Interpret the AccessList as a whitelist (xUDT).
pub const CONFIG_ACCESS_WHITELIST: u8 = 0b0000_0100;

/// Reject transfer and mint flows (xUDT).
pub const CONFIG_PAUSED: u8 = 0b0000_1000;

/// Bit `bit` of `flags` is set.
pub open spec fn flag_set(flags: u8, bit: u8) -> bool {
    flags & bit != 0
}

/// Whether the supply-tracking flag is set.
pub fn is_supply_tracked(config_flags: u8) -> (r: bool)
    ensures
        r == flag_set(config_flags, CONFIG_SUPPLY_TRACKED),
{
    config_flags & CONFIG_SUPPLY_TRACKED != 0
}

/// Whether the access-enabled flag is set.
pub fn access_enabled(config_flags: u8) -> (r: bool)
    ensures
        r == flag_set(config_flags, CONFIG_ACCESS_ENABLED),
{
    config_flags & CONFIG_ACCESS_ENABLED != 0
}

/// Whether the whitelist flag is set.
pub fn whitelist_mode(config_flags: u8) -> (r: bool)
    ensures
        r == flag_set(config_flags, CONFIG_ACCESS_WHITELIST),
{
    config_flags & CONFIG_ACCESS_WHITELIST != 0
}

/// Whether the paused flag is set.
pub fn paused(config_flags: u8) -> (r: bool)
    ensures
        r == flag_set(config_flags, CONFIG_PAUSED),
{
    config_flags & CONFIG_PAUSED != 0
}

} // verus!
