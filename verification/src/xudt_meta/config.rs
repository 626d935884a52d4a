//! xUDT metadata configuration flags: which combinations are valid, and what each flag means.
use vstd::prelude::*;
use crate::config::{flag_set, CONFIG_ACCESS_ENABLED, CONFIG_ACCESS_WHITELIST, CONFIG_PAUSED, CONFIG_SUPPLY_TRACKED};
use crate::xudt_meta::error::Error;

verus! {

/// The flags xUDT metadata may set.
pub const XUDT_ALLOWED_CONFIG_MASK: u8 = 0b0000_1111;

/// Configuration flags are valid: only the four known bits, and whitelist only with access on.
pub open spec fn config_valid(flags: u8) -> bool {
    &&& flags & !XUDT_ALLOWED_CONFIG_MASK == 0
    &&& !(flag_set(flags, CONFIG_ACCESS_WHITELIST) && !flag_set(flags, CONFIG_ACCESS_ENABLED))
}

/// Configuration flags must use only the four known bits, and whitelist needs access enabled.
pub fn validate_config(config_flags: u8) -> (r: Result<(), Error>)
    ensures
        r is Ok <==> config_valid(config_flags),
        r matches Err(e) ==> e == Error::InvalidMetaData,
{
    if config_flags & !XUDT_ALLOWED_CONFIG_MASK != 0 {
        return Err(Error::InvalidMetaData);
    }
    if config_flags & CONFIG_ACCESS_WHITELIST != 0 && config_flags & CONFIG_ACCESS_ENABLED == 0 {
        return Err(Error::InvalidMetaData);
    }
    Ok(())
}

/// Whether the supply-tracking flag is set.
pub fn is_supply_tracked(config_flags: u8) -> (r: bool)
    ensures
        r == flag_set(config_flags, CONFIG_SUPPLY_TRACKED),
{
    config_flags & CONFIG_SUPPLY_TRACKED != 0
}

/// Whether the access-enabled flag is set.
pub fn access_enabled(config_flags: u8) -> (r: bool)
    ensures
        r == flag_set(config_flags, CONFIG_ACCESS_ENABLED),
{
    config_flags & CONFIG_ACCESS_ENABLED != 0
}

/// Whether the whitelist flag is set.
pub fn whitelist_mode(config_flags: u8) -> (r: bool)
    ensures
        r == flag_set(config_flags, CONFIG_ACCESS_WHITELIST),
{
    config_flags & CONFIG_ACCESS_WHITELIST != 0
}

/// Whether the paused flag is set.
pub fn paused(config_flags: u8) -> (r: bool)
    ensures
        r == flag_set(config_flags, CONFIG_PAUSED),
{
    config_flags & CONFIG_PAUSED != 0
}

} // verus!
