use crate::error::ErrorCode;
use crate::identity::Identity;
use vstd::prelude::*;

verus! {

/// The one record of who may set the fee rate, and of the rate that new
/// pools are given.
#[derive(Clone, Copy, Debug, PartialEq, Eq, Structural)]
pub struct Config {
    pub authority: Identity,
    pub fee_rate: u16,
}

/// The accounts named when the configuration is first written.
#[derive(Clone, Copy, Debug, PartialEq, Eq, Structural)]
pub struct InitializeConfig {
    pub authority: Identity,
}

/// The accounts named when the fee rate is changed.
#[derive(Clone, Copy, Debug, PartialEq, Eq, Structural)]
pub struct UpdateConfig {
    pub authority: Identity,
}

/// The accounts named when the fees are withdrawn.
#[derive(Clone, Copy, Debug, PartialEq, Eq, Structural)]
pub struct WithdrawFees {
    pub authority: Identity,
}

/// Writes the configuration: `accounts.authority` becomes the authority,
/// and `fee_rate` the rate for new pools.
pub fn initialize_config(accounts: &InitializeConfig, fee_rate: u16) -> (config: Config)
    ensures
        config == (Config { authority: accounts.authority, fee_rate }),
{
    Config { authority: accounts.authority, fee_rate }
}

/// Sets the fee rate for new pools, for the authority and for nobody else.
pub fn update_config(config: &mut Config, accounts: &UpdateConfig, fee_rate: u16) -> (res: Result<
    (),
    ErrorCode,
>)
    ensures
        accounts.authority == old(config).authority ==> res == Ok::<(), ErrorCode>(()) && *final(config) == (
        Config { authority: old(config).authority, fee_rate }),
        accounts.authority != old(config).authority ==> res == Err::<(), ErrorCode>(ErrorCode::Unauthorized)
            && *final(config) == *old(config),
{
    if accounts.authority != config.authority {
        return Err(ErrorCode::Unauthorized);
    }
    config.fee_rate = fee_rate;
    Ok(())
}

/// Admits a withdrawal of fees, for the authority and for nobody else.
///
/// The fees of a pool stay in its reserves, so there is nothing for the
/// configuration to record: the answer says only whether the caller may.
pub fn withdraw_fees(config: &Config, accounts: &WithdrawFees) -> (res: Result<(), ErrorCode>)
    ensures
        accounts.authority == config.authority ==> res == Ok::<(), ErrorCode>(()),
        accounts.authority != config.authority ==> res == Err::<(), ErrorCode>(ErrorCode::Unauthorized),
{
    if accounts.authority != config.authority {
        return Err(ErrorCode::Unauthorized);
    }
    Ok(())
}

} // verus!
