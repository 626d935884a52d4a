//! The access mode a metadata configuration selects.
use vstd::prelude::*;
use crate::access_list::error::Error;
use crate::config::{access_enabled, flag_set, whitelist_mode, CONFIG_ACCESS_ENABLED, CONFIG_ACCESS_WHITELIST};

verus! {

/// No AccessList checks, blacklist checks or whitelist checks.
#[derive(Clone, Copy, Debug, PartialEq, Eq, Structural)]
pub enum AccessMode {
    Disabled,
    Blacklist,
    Whitelist,
}

/// The access mode configuration flags select: `None` for the whitelist bit without the
/// access-enabled bit.
pub open spec fn mode_of_flags(config_flags: u8) -> Option<AccessMode> {
    let enabled = flag_set(config_flags, CONFIG_ACCESS_ENABLED);
    let whitelist = flag_set(config_flags, CONFIG_ACCESS_WHITELIST);
    if !enabled && !whitelist {
        Some(AccessMode::Disabled)
    } else if enabled && !whitelist {
        Some(AccessMode::Blacklist)
    } else if enabled && whitelist {
        Some(AccessMode::Whitelist)
    } else {
        None
    }
}

impl AccessMode {
    /// Reads the access mode out of configuration flags; whitelist without access enabled is
    /// invalid metadata.
    pub fn from_flags(config_flags: u8) -> (r: Result<Self, Error>)
        ensures
            match mode_of_flags(config_flags) {
                Some(m) => r == Ok::<AccessMode, Error>(m),
                None => r == Err::<AccessMode, Error>(Error::InvalidMetaData),
            },
    {
        let enabled = access_enabled(config_flags);
        let whitelist = whitelist_mode(config_flags);
        match (enabled, whitelist) {
            (false, false) => Ok(Self::Disabled),
            (true, false) => Ok(Self::Blacklist),
            (true, true) => Ok(Self::Whitelist),
            (false, true) => Err(Error::InvalidMetaData),
        }
    }
}

} // verus!
