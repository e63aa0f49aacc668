use redz_exchange::close_token_launch;
use redz_exchange::finalize_token_launch;
use redz_exchange::launch_token;
use redz_exchange::participate_in_launch;
use redz_exchange::token_allocation;
use redz_exchange::Authority;
use redz_exchange::CloseTokenLaunch;
use redz_exchange::Contribution;
use redz_exchange::ErrorCode;
use redz_exchange::FinalizeTokenLaunch;
use redz_exchange::Identity;
use redz_exchange::Launch;
use redz_exchange::LaunchToken;
use redz_exchange::LedgerOrder;
use redz_exchange::LedgerReply;
use redz_exchange::ParticipateInLaunch;
use redz_exchange::Step;

fn key(n: u128) -> Identity {
    Identity { hi: 7, lo: n }
}

const TOKEN: u128 = 1;
const LAUNCHER: u128 = 2;
const PAYMENT: u128 = 3;
const ESCROW: u128 = 4;
const VAULT: u128 = 5;
const ANN: u128 = 10;
const BOB: u128 = 11;
const CAT: u128 = 12;

struct Sale {
    launch: Launch,
    book: Vec<Contribution>,
}

fn sale(target: u64, tokens: u64, duration: u64, now: u64) -> Sale {
    let accounts = LaunchToken { token_mint: key(TOKEN), launcher: key(LAUNCHER) };
    Sale { launch: launch_token(&accounts, target, tokens, duration, now), book: Vec::new() }
}

fn buyer(who: u128) -> ParticipateInLaunch {
    ParticipateInLaunch { participant: key(who), payment_mint: key(PAYMENT), escrow: key(ESCROW) }
}

fn closer(who: u128) -> CloseTokenLaunch {
    CloseTokenLaunch { caller: key(who), payment_mint: key(PAYMENT), escrow: key(ESCROW) }
}

fn vault() -> FinalizeTokenLaunch {
    FinalizeTokenLaunch { token_vault: key(VAULT) }
}

fn entry(who: u128, amount: u64) -> Contribution {
    Contribution { participant: key(who), amount }
}

fn tokens_to(who: u128, amount: u64) -> LedgerOrder {
    LedgerOrder::Transfer {
        asset: key(TOKEN),
        from: key(VAULT),
        to: key(who),
        amount,
        authority: Authority::Launch(key(TOKEN)),
    }
}

fn refund_to(who: u128, amount: u64) -> LedgerOrder {
    LedgerOrder::Transfer {
        asset: key(PAYMENT),
        from: key(ESCROW),
        to: key(who),
        amount,
        authority: Authority::Launch(key(TOKEN)),
    }
}

fn participate(sale: &mut Sale, who: u128, amount: u64, now: u64) -> Result<Vec<LedgerOrder>, ErrorCode> {
    assert!(sale.launch.is_funded_by(&sale.book));
    let mut replies = Vec::new();
    let mut orders = Vec::new();
    loop {
        match participate_in_launch(&mut sale.launch, &mut sale.book, &buyer(who), amount, now, &replies)? {
            Step::Issue(order) => {
                orders.push(order);
                replies.push(LedgerReply::Confirmed);
            }
            Step::Settled => return Ok(orders),
        }
    }
}

fn finalize(sale: &mut Sale, now: u64) -> Result<Vec<LedgerOrder>, ErrorCode> {
    assert!(sale.launch.is_funded_by(&sale.book));
    let mut replies = Vec::new();
    let mut orders = Vec::new();
    loop {
        match finalize_token_launch(&mut sale.launch, &sale.book, &vault(), now, &replies)? {
            Step::Issue(order) => {
                orders.push(order);
                replies.push(LedgerReply::Confirmed);
            }
            Step::Settled => return Ok(orders),
        }
    }
}

fn close(sale: &mut Sale, who: u128) -> Result<Vec<LedgerOrder>, ErrorCode> {
    let mut replies = Vec::new();
    let mut orders = Vec::new();
    loop {
        match close_token_launch(&mut sale.launch, &sale.book, &closer(who), &replies)? {
            Step::Issue(order) => {
                orders.push(order);
                replies.push(LedgerReply::Confirmed);
            }
            Step::Settled => return Ok(orders),
        }
    }
}

#[test]
fn launch_starts_open_with_nothing_raised() {
    let launch = sale(1000, 50000, 86400, 17).launch;
    assert_eq!(
        launch,
        Launch {
            token_mint: key(TOKEN),
            launcher: key(LAUNCHER),
            target_amount: 1000,
            current_amount: 0,
            token_amount: 50000,
            duration: 86400,
            launch_time: 17,
            is_finalized: false,
            is_closed: false,
        }
    );
    assert!(launch.open());
    assert!(launch.is_funded_by(&vec![]));
    assert!(!launch.expired(17));
    assert!(!launch.expired(17 + 86399));
    assert!(launch.expired(17 + 86400));
}

#[test]
fn contribution_is_moved_into_escrow_and_entered_in_the_book() {
    let mut sale = sale(1000, 50000, 100, 0);
    let orders = participate(&mut sale, ANN, 600, 10).unwrap();
    assert_eq!(sale.launch.current_amount, 600);
    assert_eq!(sale.book, vec![entry(ANN, 600)]);
    assert_eq!(
        orders,
        vec![LedgerOrder::Transfer {
            asset: key(PAYMENT),
            from: key(ANN),
            to: key(ESCROW),
            amount: 600,
            authority: Authority::Account(key(ANN)),
        }]
    );
}

#[test]
fn contributions_of_one_participant_are_added_up() {
    let mut sale = sale(1000, 50000, 100, 0);
    participate(&mut sale, ANN, 100, 10).unwrap();
    participate(&mut sale, BOB, 200, 11).unwrap();
    participate(&mut sale, ANN, 50, 12).unwrap();
    participate(&mut sale, CAT, 1, 13).unwrap();
    participate(&mut sale, BOB, 7, 14).unwrap();
    assert_eq!(sale.book, vec![entry(ANN, 150), entry(BOB, 207), entry(CAT, 1)]);
    assert_eq!(sale.launch.current_amount, 358);
    assert!(sale.launch.is_funded_by(&sale.book));
}

#[test]
fn book_that_does_not_add_up_is_told_apart() {
    let mut sale = sale(1000, 50000, 100, 0);
    participate(&mut sale, ANN, 100, 10).unwrap();
    participate(&mut sale, BOB, 200, 11).unwrap();
    assert!(sale.launch.is_funded_by(&vec![entry(BOB, 200), entry(ANN, 100)]));
    assert!(sale.launch.is_funded_by(&vec![entry(CAT, 300)]));
    assert!(!sale.launch.is_funded_by(&vec![entry(ANN, 100)]));
    assert!(!sale.launch.is_funded_by(&vec![entry(ANN, 100), entry(BOB, 201)]));
    assert!(!sale.launch.is_funded_by(&vec![entry(ANN, u64::MAX), entry(BOB, u64::MAX)]));
    assert!(!sale.launch.is_funded_by(&vec![]));
}

#[test]
fn contribution_past_the_target_is_refused() {
    let mut sale = sale(1000, 50000, 100, 0);
    participate(&mut sale, ANN, 600, 10).unwrap();
    assert_eq!(participate(&mut sale, BOB, 500, 11), Err(ErrorCode::TargetExceeded));
    assert_eq!(sale.launch.current_amount, 600);
    assert_eq!(sale.book, vec![entry(ANN, 600)]);
}

#[test]
fn contribution_up_to_the_target_is_accepted() {
    let mut sale = sale(1000, 50000, 100, 0);
    participate(&mut sale, ANN, 600, 10).unwrap();
    participate(&mut sale, BOB, 400, 11).unwrap();
    assert_eq!(sale.launch.current_amount, 1000);
    assert_eq!(participate(&mut sale, CAT, 1, 12), Err(ErrorCode::TargetExceeded));
    assert!(participate(&mut sale, CAT, 0, 12).is_ok());
    assert_eq!(sale.launch.current_amount, 1000);
    assert_eq!(sale.book, vec![entry(ANN, 600), entry(BOB, 400), entry(CAT, 0)]);
}

#[test]
fn contribution_that_leaves_the_range_is_refused() {
    let mut sale = sale(u64::MAX, 50000, 100, 0);
    participate(&mut sale, ANN, 600, 10).unwrap();
    assert_eq!(participate(&mut sale, ANN, u64::MAX, 11), Err(ErrorCode::TargetExceeded));
    assert_eq!(sale.launch.current_amount, 600);
    participate(&mut sale, ANN, u64::MAX - 600, 12).unwrap();
    assert_eq!(sale.book, vec![entry(ANN, u64::MAX)]);
}

#[test]
fn contribution_after_the_window_is_refused() {
    let mut sale = sale(1000, 50000, 100, 5);
    assert!(participate(&mut sale, ANN, 1, 104).is_ok());
    assert_eq!(participate(&mut sale, ANN, 1, 105), Err(ErrorCode::LaunchExpired));
    assert_eq!(participate(&mut sale, ANN, 1, u64::MAX), Err(ErrorCode::LaunchExpired));
    assert_eq!(sale.launch.current_amount, 1);
}

#[test]
fn window_that_ends_past_the_range_never_expires() {
    let mut sale = sale(1000, 50000, u64::MAX, 5);
    assert!(!sale.launch.expired(u64::MAX));
    assert!(participate(&mut sale, ANN, 1, u64::MAX).is_ok());
}

#[test]
fn contribution_waits_for_the_ledger() {
    let mut sale = sale(1000, 50000, 100, 0);
    let before = sale.launch;
    let step = participate_in_launch(&mut sale.launch, &mut sale.book, &buyer(ANN), 600, 10, &vec![]).unwrap();
    assert!(matches!(step, Step::Issue(LedgerOrder::Transfer { amount: 600, .. })));
    assert_eq!(sale.launch, before);
    assert!(sale.book.is_empty());
    let failed = vec![LedgerReply::Failed];
    assert_eq!(
        participate_in_launch(&mut sale.launch, &mut sale.book, &buyer(ANN), 600, 10, &failed),
        Err(ErrorCode::TransferFailed)
    );
    assert_eq!(sale.launch, before);
    assert!(sale.book.is_empty());
    let confirmed = vec![LedgerReply::Confirmed];
    assert_eq!(
        participate_in_launch(&mut sale.launch, &mut sale.book, &buyer(ANN), 600, 10, &confirmed),
        Ok(Step::Settled)
    );
    assert_eq!(sale.launch.current_amount, 600);
    assert_eq!(sale.book, vec![entry(ANN, 600)]);
}

#[test]
fn finalize_before_the_sale_is_due_is_refused() {
    let mut sale = sale(1000, 50000, 100, 0);
    participate(&mut sale, ANN, 999, 10).unwrap();
    let before = sale.launch;
    assert_eq!(finalize(&mut sale, 99), Err(ErrorCode::InvalidInput));
    assert_eq!(sale.launch, before);
}

#[test]
fn finalize_once_the_target_is_raised() {
    let mut sale = sale(1000, 50000, 100, 0);
    participate(&mut sale, ANN, 600, 10).unwrap();
    participate(&mut sale, BOB, 400, 10).unwrap();
    // 600 * 50000 / 1000 = 30000, 400 * 50000 / 1000 = 20000
    assert_eq!(finalize(&mut sale, 11), Ok(vec![tokens_to(ANN, 30000), tokens_to(BOB, 20000)]));
    assert!(sale.launch.is_finalized);
    assert!(!sale.launch.is_closed);
    assert!(!sale.launch.open());
}

#[test]
fn finalize_once_the_window_has_ended() {
    let mut sale = sale(1000, 50000, 100, 0);
    participate(&mut sale, ANN, 1, 10).unwrap();
    participate(&mut sale, BOB, 2, 10).unwrap();
    // 1 * 50000 / 3 = 16666, 2 * 50000 / 3 = 33333
    assert_eq!(finalize(&mut sale, 100), Ok(vec![tokens_to(ANN, 16666), tokens_to(BOB, 33333)]));
    assert!(sale.launch.is_finalized);
}

#[test]
fn finalize_of_a_sale_that_raised_nothing_hands_out_nothing() {
    let mut sale = sale(1000, 50000, 100, 0);
    participate(&mut sale, ANN, 0, 10).unwrap();
    assert_eq!(finalize(&mut sale, 100), Ok(vec![tokens_to(ANN, 0)]));
    assert!(sale.launch.is_finalized);
    let mut empty = self::sale(1000, 50000, 100, 0);
    assert_eq!(finalize(&mut empty, 100), Ok(vec![]));
    assert!(empty.launch.is_finalized);
}

#[test]
fn finalize_waits_for_every_order() {
    let mut sale = sale(1000, 50000, 100, 0);
    participate(&mut sale, ANN, 600, 10).unwrap();
    participate(&mut sale, BOB, 400, 10).unwrap();
    let mut replies = Vec::new();
    assert_eq!(
        finalize_token_launch(&mut sale.launch, &sale.book, &vault(), 11, &replies),
        Ok(Step::Issue(tokens_to(ANN, 30000)))
    );
    replies.push(LedgerReply::Confirmed);
    assert_eq!(
        finalize_token_launch(&mut sale.launch, &sale.book, &vault(), 11, &replies),
        Ok(Step::Issue(tokens_to(BOB, 20000)))
    );
    assert!(!sale.launch.is_finalized);
    replies.push(LedgerReply::Failed);
    assert_eq!(
        finalize_token_launch(&mut sale.launch, &sale.book, &vault(), 11, &replies),
        Err(ErrorCode::TransferFailed)
    );
    assert!(!sale.launch.is_finalized);
    replies[1] = LedgerReply::Confirmed;
    assert_eq!(finalize_token_launch(&mut sale.launch, &sale.book, &vault(), 11, &replies), Ok(Step::Settled));
    assert!(sale.launch.is_finalized);
}

#[test]
fn finalize_happens_once() {
    let mut sale = sale(1000, 50000, 100, 0);
    assert_eq!(finalize(&mut sale, 100), Ok(vec![]));
    let done = sale.launch;
    assert_eq!(finalize(&mut sale, 101), Err(ErrorCode::LaunchClosed));
    assert_eq!(close(&mut sale, LAUNCHER), Err(ErrorCode::LaunchClosed));
    assert_eq!(participate(&mut sale, ANN, 1, 50), Err(ErrorCode::LaunchClosed));
    assert_eq!(sale.launch, done);
}

#[test]
fn close_happens_once() {
    let mut sale = sale(1000, 50000, 100, 0);
    assert_eq!(close(&mut sale, LAUNCHER), Ok(vec![]));
    assert!(sale.launch.is_closed);
    assert!(!sale.launch.is_finalized);
    let done = sale.launch;
    assert_eq!(close(&mut sale, LAUNCHER), Err(ErrorCode::LaunchClosed));
    assert_eq!(finalize(&mut sale, 1000), Err(ErrorCode::LaunchClosed));
    assert_eq!(participate(&mut sale, ANN, 1, 50), Err(ErrorCode::LaunchClosed));
    assert_eq!(sale.launch, done);
}

#[test]
fn anyone_closes_a_sale_that_raised_nothing() {
    let mut sale = sale(1000, 50000, 100, 0);
    assert_eq!(close(&mut sale, ANN), Ok(vec![]));
    assert!(sale.launch.is_closed);
}

#[test]
fn only_the_launcher_closes_a_sale_that_raised_something() {
    let mut sale = sale(1000, 50000, 100, 0);
    participate(&mut sale, ANN, 1, 10).unwrap();
    let before = sale.launch;
    assert_eq!(close(&mut sale, ANN), Err(ErrorCode::Unauthorized));
    assert_eq!(sale.launch, before);
    assert!(close(&mut sale, LAUNCHER).is_ok());
    assert!(sale.launch.is_closed);
}

#[test]
fn close_returns_every_contribution() {
    let mut sale = sale(1000, 50000, 100, 0);
    participate(&mut sale, ANN, 100, 10).unwrap();
    participate(&mut sale, BOB, 200, 11).unwrap();
    participate(&mut sale, ANN, 50, 12).unwrap();
    assert_eq!(close(&mut sale, LAUNCHER), Ok(vec![refund_to(ANN, 150), refund_to(BOB, 200)]));
    assert!(sale.launch.is_closed);
    assert_eq!(sale.launch.current_amount, 350);
}

#[test]
fn close_waits_for_every_refund() {
    let mut sale = sale(1000, 50000, 100, 0);
    participate(&mut sale, ANN, 100, 10).unwrap();
    let before = sale.launch;
    assert_eq!(
        close_token_launch(&mut sale.launch, &sale.book, &closer(LAUNCHER), &vec![]),
        Ok(Step::Issue(refund_to(ANN, 100)))
    );
    assert_eq!(
        close_token_launch(&mut sale.launch, &sale.book, &closer(LAUNCHER), &vec![LedgerReply::Failed]),
        Err(ErrorCode::TransferFailed)
    );
    assert_eq!(sale.launch, before);
    assert_eq!(
        close_token_launch(&mut sale.launch, &sale.book, &closer(LAUNCHER), &vec![LedgerReply::Confirmed]),
        Ok(Step::Settled)
    );
    assert!(sale.launch.is_closed);
}

#[test]
fn allocation_is_in_proportion_to_the_contribution() {
    let mut sale = sale(1000, 50000, 100, 0);
    participate(&mut sale, ANN, 600, 10).unwrap();
    participate(&mut sale, BOB, 200, 11).unwrap();
    // 600 * 50000 / 800 = 37500, 200 * 50000 / 800 = 12500
    assert_eq!(token_allocation(&sale.launch, 600), Ok(37500));
    assert_eq!(token_allocation(&sale.launch, 200), Ok(12500));
    assert_eq!(token_allocation(&sale.launch, 800), Ok(50000));
    assert_eq!(token_allocation(&sale.launch, 0), Ok(0));
    // 1 * 50000 / 800 = 62
    assert_eq!(token_allocation(&sale.launch, 1), Ok(62));
}

#[test]
fn allocation_at_the_top_of_the_range() {
    let launch = Launch { current_amount: u64::MAX, ..sale(u64::MAX, u64::MAX, 100, 0).launch };
    assert_eq!(token_allocation(&launch, u64::MAX), Ok(u64::MAX));
    assert_eq!(token_allocation(&launch, u64::MAX - 1), Ok(u64::MAX - 1));
}

#[test]
fn allocation_has_no_answer_where_nothing_was_raised() {
    let launch = sale(1000, 50000, 100, 0).launch;
    assert_eq!(token_allocation(&launch, 0), Err(ErrorCode::InvalidInput));
    assert_eq!(token_allocation(&launch, 1), Err(ErrorCode::InvalidInput));
}

#[test]
fn allocation_has_no_answer_for_more_than_was_raised() {
    let mut sale = sale(1000, 50000, 100, 0);
    participate(&mut sale, ANN, 600, 10).unwrap();
    assert_eq!(token_allocation(&sale.launch, 601), Err(ErrorCode::InvalidInput));
}

#[test]
fn allocations_add_up_to_no_more_than_the_tokens_on_sale() {
    let mut sale = sale(1000, 50000, 100, 0);
    for (who, amount) in [(ANN, 333), (BOB, 334), (CAT, 3), (ANN, 29)] {
        participate(&mut sale, who, amount, 10).unwrap();
    }
    let orders = finalize(&mut sale, 100).unwrap();
    let handed: u64 = orders
        .iter()
        .map(|order| match order {
            LedgerOrder::Transfer { amount, .. } => *amount,
            _ => panic!("a finalization hands out tokens by transfer"),
        })
        .sum();
    assert!(handed <= 50000);
    // 362 * 50000 / 699 = 25894, 334 * 50000 / 699 = 23891, 3 * 50000 / 699 = 214
    assert_eq!(orders, vec![tokens_to(ANN, 25894), tokens_to(BOB, 23891), tokens_to(CAT, 214)]);
}
