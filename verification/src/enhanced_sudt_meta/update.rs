//! Enhanced sUDT metadata: the rules for updating a metadata cell.
use vstd::prelude::*;
use crate::config::flag_set;
use crate::enhanced_sudt_meta::error::Error;
use crate::enhanced_sudt_meta::meta_cell::{is_supply_tracked, SudtMeta, SudtMetaV, CONFIG_SUPPLY_TRACKED};

verus! {

/// The outcome of an update: the supply mode is fixed, untracked supply stays zero, and the
/// supply cannot change through this script.
pub open spec fn update_outcome(input: SudtMetaV, output: SudtMetaV) -> Result<(), Error> {
    if flag_set(input.config_flags, CONFIG_SUPPLY_TRACKED) != flag_set(output.config_flags, CONFIG_SUPPLY_TRACKED) {
        Err(Error::ImmutableSupplyMode)
    } else if !flag_set(output.config_flags, CONFIG_SUPPLY_TRACKED) && output.current_supply != 0 {
        Err(Error::InvalidSupply)
    } else if input.current_supply != output.current_supply {
        Err(Error::AuthorityMissing)
    } else {
        Ok(())
    }
}

/// Checks an update of the metadata cell.
pub fn validate_update(input: &SudtMeta, output: &SudtMeta) -> (r: Result<(), Error>)
    ensures
        r == update_outcome(input@, output@),
{
    let a = input.config_flags;
    let b = output.config_flags;
    assert((a & 1u8 != b & 1u8) == ((a & 1u8 != 0) != (b & 1u8 != 0))) by (bit_vector);
    if input.config_flags & CONFIG_SUPPLY_TRACKED != output.config_flags & CONFIG_SUPPLY_TRACKED {
        return Err(Error::ImmutableSupplyMode);
    }

    if !is_supply_tracked(output.config_flags) && output.current_supply != 0 {
        return Err(Error::InvalidSupply);
    }

    if input.current_supply != output.current_supply {
        return Err(Error::AuthorityMissing);
    }

    Ok(())
}

/// Supply tracking is fixed at creation: an update that turns it on or off is refused.
pub proof fn lemma_supply_mode_immutable(input: SudtMetaV, output: SudtMetaV)
    requires
        flag_set(input.config_flags, CONFIG_SUPPLY_TRACKED) != flag_set(output.config_flags, CONFIG_SUPPLY_TRACKED),
    ensures
        update_outcome(input, output) == Err::<(), Error>(Error::ImmutableSupplyMode),
{
}

/// The metadata script never changes the supply: an accepted update keeps it, and keeps an
/// untracked supply at zero.
pub proof fn lemma_accepted_update_keeps_supply(input: SudtMetaV, output: SudtMetaV)
    requires
        update_outcome(input, output) is Ok,
    ensures
        output.current_supply == input.current_supply,
        !flag_set(output.config_flags, CONFIG_SUPPLY_TRACKED) ==> output.current_supply == 0,
{
}

} // verus!
