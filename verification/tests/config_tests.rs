use redz_exchange::advance;
use redz_exchange::derive_authority;
use redz_exchange::initialize_config;
use redz_exchange::update_config;
use redz_exchange::withdraw_fees;
use redz_exchange::AssetPair;
use redz_exchange::Authority;
use redz_exchange::Config;
use redz_exchange::ErrorCode;
use redz_exchange::Identity;
use redz_exchange::InitializeConfig;
use redz_exchange::LedgerOrder;
use redz_exchange::LedgerReply;
use redz_exchange::Step;
use redz_exchange::UpdateConfig;
use redz_exchange::WithdrawFees;

fn who(n: u128) -> Identity {
    Identity { hi: n, lo: n }
}

fn burn(amount: u64) -> LedgerOrder {
    LedgerOrder::Burn { asset: who(1), from: who(2), amount, authority: Authority::Account(who(3)) }
}

#[test]
fn initialize_config_records_authority_and_rate() {
    let config = initialize_config(&InitializeConfig { authority: who(9) }, 30);
    assert_eq!(config, Config { authority: who(9), fee_rate: 30 });
}

#[test]
fn update_config_by_the_authority() {
    let mut config = initialize_config(&InitializeConfig { authority: who(9) }, 30);
    assert_eq!(update_config(&mut config, &UpdateConfig { authority: who(9) }, 45), Ok(()));
    assert_eq!(config, Config { authority: who(9), fee_rate: 45 });
}

#[test]
fn update_config_by_anyone_else_is_refused() {
    let mut config = initialize_config(&InitializeConfig { authority: who(9) }, 30);
    assert_eq!(update_config(&mut config, &UpdateConfig { authority: who(8) }, 45), Err(ErrorCode::Unauthorized));
    assert_eq!(config, Config { authority: who(9), fee_rate: 30 });
    let near = Identity { hi: 9, lo: 8 };
    assert_eq!(update_config(&mut config, &UpdateConfig { authority: near }, 45), Err(ErrorCode::Unauthorized));
    assert_eq!(config.fee_rate, 30);
}

#[test]
fn withdraw_fees_by_the_authority() {
    let config = initialize_config(&InitializeConfig { authority: who(9) }, 30);
    assert_eq!(withdraw_fees(&config, &WithdrawFees { authority: who(9) }), Ok(()));
}

#[test]
fn withdraw_fees_by_anyone_else_is_refused() {
    let config = initialize_config(&InitializeConfig { authority: who(9) }, 30);
    assert_eq!(withdraw_fees(&config, &WithdrawFees { authority: who(10) }), Err(ErrorCode::Unauthorized));
}

#[test]
fn pool_authority_is_derived_from_the_pair() {
    let pair = AssetPair::new(who(2), who(1));
    assert_eq!(derive_authority(pair), Authority::Pool(AssetPair { first: who(1), second: who(2) }));
    assert_eq!(derive_authority(pair), derive_authority(AssetPair::new(who(1), who(2))));
    assert_ne!(derive_authority(pair), derive_authority(AssetPair::new(who(1), who(3))));
}

#[test]
fn orders_are_issued_one_at_a_time_in_order() {
    let orders = vec![burn(1), burn(2), burn(3)];
    let mut replies = Vec::new();
    assert_eq!(advance(&orders, &replies), Ok(Step::Issue(burn(1))));
    replies.push(LedgerReply::Confirmed);
    assert_eq!(advance(&orders, &replies), Ok(Step::Issue(burn(2))));
    replies.push(LedgerReply::Confirmed);
    assert_eq!(advance(&orders, &replies), Ok(Step::Issue(burn(3))));
    replies.push(LedgerReply::Confirmed);
    assert_eq!(advance(&orders, &replies), Ok(Step::Settled));
}

#[test]
fn nothing_to_order_is_settled_at_once() {
    assert_eq!(advance(&vec![], &vec![]), Ok(Step::Settled));
}

#[test]
fn failed_order_ends_the_operation() {
    let orders = vec![burn(1), burn(2)];
    assert_eq!(advance(&orders, &vec![LedgerReply::Failed]), Err(ErrorCode::TransferFailed));
    assert_eq!(advance(&orders, &vec![LedgerReply::Confirmed, LedgerReply::Failed]), Err(ErrorCode::TransferFailed));
    assert_eq!(advance(&orders, &vec![LedgerReply::Failed, LedgerReply::Confirmed]), Err(ErrorCode::TransferFailed));
    let too_many = vec![LedgerReply::Confirmed, LedgerReply::Confirmed, LedgerReply::Failed];
    assert_eq!(advance(&orders, &too_many), Err(ErrorCode::TransferFailed));
}

#[test]
fn more_replies_than_orders_are_refused() {
    let orders = vec![burn(1)];
    let replies = vec![LedgerReply::Confirmed, LedgerReply::Confirmed];
    assert_eq!(advance(&orders, &replies), Err(ErrorCode::InvalidInput));
}

#[test]
fn error_messages() {
    assert_eq!(ErrorCode::SlippageExceeded.message(), "Slippage tolerance exceeded");
    assert_eq!(ErrorCode::InvalidInput.message(), "Invalid input");
    assert_eq!(ErrorCode::InvalidFeeRate.message(), "Fee rate out of range");
    assert_eq!(ErrorCode::Unauthorized.message(), "Caller is not the authority");
    assert_eq!(ErrorCode::ArithmeticOverflow.message(), "Arithmetic overflow");
    assert_eq!(ErrorCode::ReserveUnderflow.message(), "Reserve underflow");
    assert_eq!(ErrorCode::InsufficientShares.message(), "Insufficient shares");
    assert_eq!(ErrorCode::EmptyPool.message(), "Pool is empty");
    assert_eq!(ErrorCode::DuplicatePool.message(), "Pool already exists");
    assert_eq!(ErrorCode::UnknownVault.message(), "Unknown vault");
    assert_eq!(ErrorCode::LaunchClosed.message(), "Launch is finalized or closed");
    assert_eq!(ErrorCode::LaunchExpired.message(), "Launch window has ended");
    assert_eq!(ErrorCode::TargetExceeded.message(), "Launch target exceeded");
    assert_eq!(ErrorCode::TransferFailed.message(), "Transfer failed");
}
