//! A constant-product exchange and a token sale, as verified ledgers.
//!
//! A [`Pool`] holds the reserves of two assets and the shares in issue
//! against them; [`add_liquidity`], [`remove_liquidity`] and [`swap`] change
//! it, priced by the functions of [`reserve_math`]. A [`Launch`] sells a
//! fixed allocation of tokens within a window of time. A [`Config`] records
//! who may set the fee rate.
//!
//! The library moves no funds. An operation that needs the ledger hands its
//! caller one [`LedgerOrder`] at a time and is called again with the
//! ledger's replies; it changes its state when the last order is confirmed,
//! and not at all if one is refused. The time is an argument, never read.

pub mod address;
pub mod config;
pub mod error;
pub mod identity;
pub mod launch;
pub mod ledger;
pub mod pool;
pub mod reserve_math;

pub use address::find_launch_address;
pub use address::find_pool_address;
pub use address::DerivedAddress;
pub use config::initialize_config;
pub use config::update_config;
pub use config::withdraw_fees;
pub use config::Config;
pub use config::InitializeConfig;
pub use config::UpdateConfig;
pub use config::WithdrawFees;
pub use error::ErrorCode;
pub use identity::AssetPair;
pub use identity::Identity;
pub use launch::close_token_launch;
pub use launch::finalize_token_launch;
pub use launch::launch_token;
pub use launch::participate_in_launch;
pub use launch::token_allocation;
pub use launch::CloseTokenLaunch;
pub use launch::Contribution;
pub use launch::FinalizeTokenLaunch;
pub use launch::Launch;
pub use launch::LaunchToken;
pub use launch::ParticipateInLaunch;
pub use ledger::advance;
pub use ledger::derive_authority;
pub use ledger::Authority;
pub use ledger::LedgerOrder;
pub use ledger::LedgerReply;
pub use ledger::Step;
pub use pool::add_liquidity;
pub use pool::create_pool;
pub use pool::remove_liquidity;
pub use pool::swap;
pub use pool::AddLiquidity;
pub use pool::CreatePool;
pub use pool::Pool;
pub use pool::Registry;
pub use pool::RemoveLiquidity;
pub use pool::Swap;
pub use reserve_math::isqrt;
pub use reserve_math::quote_liquidity_shares;
pub use reserve_math::quote_swap_output;
pub use reserve_math::FEE_DENOMINATOR;
