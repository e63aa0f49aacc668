use crate::config::Config;
use crate::error::ErrorCode;
use crate::identity::AssetPair;
use crate::identity::Identity;
use crate::ledger::advance;
use crate::ledger::derive_authority;
use crate::ledger::pool_authority;
use crate::ledger::settle;
use crate::ledger::Authority;
use crate::ledger::LedgerOrder;
use crate::ledger::LedgerReply;
use crate::ledger::Step;
use crate::reserve_math::lemma_initial_shares_bounds;
use crate::reserve_math::lemma_net_of_fee_bounds;
use crate::reserve_math::lemma_swap_output_below_reserve;
use crate::reserve_math::lemma_swap_output_keeps_product;
use crate::reserve_math::liquidity_shares;
use crate::reserve_math::net_of_fee;
use crate::reserve_math::quote_liquidity_shares;
use crate::reserve_math::quote_swap_output;
use crate::reserve_math::swap_output;
use crate::reserve_math::FEE_DENOMINATOR;
use vstd::prelude::*;

verus! {

/// A pool of two assets: what it holds of each, and the shares in issue
/// against them.
#[derive(Clone, Copy, Debug, PartialEq, Eq, Structural)]
pub struct Pool {
    pub token_a_mint: Identity,
    pub token_b_mint: Identity,
    pub token_a_vault: Identity,
    pub token_b_vault: Identity,
    pub lp_token_mint: Identity,
    pub fee_rate: u16,
    pub token_a_reserve: u64,
    pub token_b_reserve: u64,
    pub lp_token_supply: u64,
}

impl Pool {
    /// The pool's fee rate is in range, and the pool is either empty, with
    /// no reserve and no share, or seeded, with something of each.
    pub open spec fn wf(self) -> bool {
        &&& self.fee_rate <= FEE_DENOMINATOR
        &&& (self.token_a_reserve == 0 <==> self.lp_token_supply == 0)
        &&& (self.token_b_reserve == 0 <==> self.lp_token_supply == 0)
    }

    /// The pair of assets by which the pool is known.
    pub open spec fn pair(self) -> AssetPair {
        AssetPair::of(self.token_a_mint, self.token_b_mint)
    }

    /// The product of the two reserves.
    pub open spec fn product(self) -> int {
        self.token_a_reserve * self.token_b_reserve
    }

    /// Tells whether the pool is well formed.
    pub fn is_well_formed(&self) -> (res: bool)
        ensures
            res == self.wf(),
    {
        let empty = self.lp_token_supply == 0;
        self.fee_rate <= FEE_DENOMINATOR && (self.token_a_reserve == 0) == empty && (self.token_b_reserve == 0)
            == empty
    }
}

/// The pairs of assets for which a pool exists.
#[derive(Clone, Debug)]
pub struct Registry {
    pub pairs: Vec<AssetPair>,
}

impl Registry {
    /// Every pair is in canonical order, and none is listed twice.
    pub open spec fn wf(self) -> bool {
        &&& forall|i: int| 0 <= i < self.pairs@.len() ==> (#[trigger] self.pairs@[i]).wf()
        &&& forall|i: int, j: int|
            0 <= i < j < self.pairs@.len() ==> self.pairs@[i] != self.pairs@[j]
    }

    /// A pool exists for `pair`.
    pub open spec fn has(self, pair: AssetPair) -> bool {
        self.pairs@.contains(pair)
    }

    /// A registry with no pool in it.
    pub fn new() -> (registry: Registry)
        ensures
            registry.wf(),
            registry.pairs@.len() == 0,
    {
        Registry { pairs: Vec::new() }
    }

    /// Tells whether a pool exists for `pair`.
    pub fn contains(&self, pair: &AssetPair) -> (res: bool)
        ensures
            res == self.has(*pair),
    {
        let mut i: usize = 0;
        while i < self.pairs.len()
            invariant
                i <= self.pairs@.len(),
                forall|j: int| 0 <= j < i ==> self.pairs@[j] != *pair,
            decreases self.pairs@.len() - i,
        {
            if self.pairs[i] == *pair {
                return true;
            }
            i += 1;
        }
        false
    }
}

/// The accounts named when a pool is created.
#[derive(Clone, Copy, Debug, PartialEq, Eq, Structural)]
pub struct CreatePool {
    pub token_a_mint: Identity,
    pub token_b_mint: Identity,
    pub token_a_vault: Identity,
    pub token_b_vault: Identity,
    pub lp_token_mint: Identity,
}

/// The pool that `create_pool` makes of `accounts` at `fee_rate`: empty.
pub open spec fn new_pool(accounts: CreatePool, fee_rate: u16) -> Pool {
    Pool {
        token_a_mint: accounts.token_a_mint,
        token_b_mint: accounts.token_b_mint,
        token_a_vault: accounts.token_a_vault,
        token_b_vault: accounts.token_b_vault,
        lp_token_mint: accounts.lp_token_mint,
        fee_rate,
        token_a_reserve: 0,
        token_b_reserve: 0,
        lp_token_supply: 0,
    }
}

/// What `create_pool` answers.
pub open spec fn create_pool_result(config: Config, registry: Registry, accounts: CreatePool) -> Result<
    Pool,
    ErrorCode,
> {
    if config.fee_rate > FEE_DENOMINATOR {
        Err(ErrorCode::InvalidFeeRate)
    } else if registry.has(AssetPair::of(accounts.token_a_mint, accounts.token_b_mint)) {
        Err(ErrorCode::DuplicatePool)
    } else {
        Ok(new_pool(accounts, config.fee_rate))
    }
}

/// Creates the pool of two assets at the fee rate that `config` holds, and
/// enters its pair in the registry.
///
/// There is one pool for a pair of assets, in whichever order they are
/// named. A refused creation leaves the registry as it was.
pub fn create_pool(config: &Config, registry: &mut Registry, accounts: &CreatePool) -> (res: Result<
    Pool,
    ErrorCode,
>)
    requires
        old(registry).wf(),
    ensures
        res == create_pool_result(*config, *old(registry), *accounts),
        final(registry).wf(),
        res is Ok ==> final(registry).pairs@ == old(registry).pairs@.push(
            AssetPair::of(accounts.token_a_mint, accounts.token_b_mint),
        ),
        res is Err ==> final(registry).pairs@ == old(registry).pairs@,
        res matches Ok(pool) ==> pool.wf() && final(registry).has(pool.pair()),
{
    if config.fee_rate > FEE_DENOMINATOR {
        return Err(ErrorCode::InvalidFeeRate);
    }
    let pair = AssetPair::new(accounts.token_a_mint, accounts.token_b_mint);
    if registry.contains(&pair) {
        return Err(ErrorCode::DuplicatePool);
    }
    registry.pairs.push(pair);
    proof {
        let n = old(registry).pairs@.len() as int;
        assert(registry.pairs@[n] == pair);
    }
    Ok(
        Pool {
            token_a_mint: accounts.token_a_mint,
            token_b_mint: accounts.token_b_mint,
            token_a_vault: accounts.token_a_vault,
            token_b_vault: accounts.token_b_vault,
            lp_token_mint: accounts.lp_token_mint,
            fee_rate: config.fee_rate,
            token_a_reserve: 0,
            token_b_reserve: 0,
            lp_token_supply: 0,
        },
    )
}

/// The accounts named in a swap: who pays, from which account, into which
/// of the pool's vaults, and the account that takes the payout.
#[derive(Clone, Copy, Debug, PartialEq, Eq, Structural)]
pub struct Swap {
    pub user: Identity,
    pub user_input: Identity,
    pub user_output: Identity,
    pub input_vault: Identity,
}

/// The pool after a swap of `amount_in` for `amount_out`, asset A for
/// asset B if `a_to_b` and the other way round if not.
pub open spec fn pool_after_swap(pool: Pool, a_to_b: bool, amount_in: u64, amount_out: u64) -> Pool {
    if a_to_b {
        Pool {
            token_a_reserve: (pool.token_a_reserve + amount_in) as u64,
            token_b_reserve: (pool.token_b_reserve - amount_out) as u64,
            ..pool
        }
    } else {
        Pool {
            token_a_reserve: (pool.token_a_reserve - amount_out) as u64,
            token_b_reserve: (pool.token_b_reserve + amount_in) as u64,
            ..pool
        }
    }
}

/// The orders of a swap: first the input, from the user into the vault,
/// then the payout, from the other vault to the user on the pool's own
/// authority.
pub open spec fn swap_orders(pool: Pool, accounts: Swap, a_to_b: bool, amount_in: u64, amount_out: u64) -> Seq<
    LedgerOrder,
> {
    seq![
        LedgerOrder::Transfer {
            asset: if a_to_b { pool.token_a_mint } else { pool.token_b_mint },
            from: accounts.user_input,
            to: if a_to_b { pool.token_a_vault } else { pool.token_b_vault },
            amount: amount_in,
            authority: Authority::Account(accounts.user),
        },
        LedgerOrder::Transfer {
            asset: if a_to_b { pool.token_b_mint } else { pool.token_a_mint },
            from: if a_to_b { pool.token_b_vault } else { pool.token_a_vault },
            to: accounts.user_output,
            amount: amount_out,
            authority: pool_authority(pool.pair()),
        },
    ]
}

/// What a swap decides: why it is refused, or the pool that it leads to
/// and the orders that go with it.
///
/// The input vault tells the direction; where the pool's two vaults are
/// the same, it is asset A that goes in. The payout is quoted at the pool's
/// fee rate against its reserves. In a well-formed pool the payout is less
/// than the reserve it comes from, so that only the input can take a
/// reserve out of range.
pub open spec fn swap_plan(pool: Pool, accounts: Swap, amount_in: u64, minimum_amount_out: u64) -> Result<
    (Pool, Seq<LedgerOrder>),
    ErrorCode,
> {
    let a_to_b = accounts.input_vault == pool.token_a_vault;
    let reserve_in = if a_to_b {
        pool.token_a_reserve
    } else {
        pool.token_b_reserve
    };
    let reserve_out = if a_to_b {
        pool.token_b_reserve
    } else {
        pool.token_a_reserve
    };
    let amount_out = swap_output(amount_in as int, reserve_in as int, reserve_out as int, pool.fee_rate as int);
    if amount_in == 0 {
        Err(ErrorCode::InvalidInput)
    } else if accounts.input_vault != pool.token_a_vault && accounts.input_vault != pool.token_b_vault {
        Err(ErrorCode::UnknownVault)
    } else if pool.lp_token_supply == 0 {
        Err(ErrorCode::EmptyPool)
    } else if amount_out < minimum_amount_out {
        Err(ErrorCode::SlippageExceeded)
    } else if reserve_in + amount_in > u64::MAX {
        Err(ErrorCode::ArithmeticOverflow)
    } else {
        Ok(
            (
                pool_after_swap(pool, a_to_b, amount_in, amount_out as u64),
                swap_orders(pool, accounts, a_to_b, amount_in, amount_out as u64),
            ),
        )
    }
}

proof fn lemma_product_grows(reserve_in: int, reserve_out: int, net: int, amount_in: int, amount_out: int)
    by (nonlinear_arith)
    requires
        0 <= net <= amount_in,
        0 <= reserve_in,
        0 <= amount_out <= reserve_out,
        (reserve_in + net) * (reserve_out - amount_out) >= reserve_in * reserve_out,
    ensures
        (reserve_in + amount_in) * (reserve_out - amount_out) >= reserve_in * reserve_out,
        (reserve_out - amount_out) * (reserve_in + amount_in) >= reserve_out * reserve_in,
{
}

fn plan_swap(pool: &Pool, accounts: &Swap, amount_in: u64, minimum_amount_out: u64) -> (res: Result<
    (Pool, Vec<LedgerOrder>),
    ErrorCode,
>)
    requires
        pool.wf(),
    ensures
        res matches Err(e) ==> swap_plan(*pool, *accounts, amount_in, minimum_amount_out) == Err::<
            (Pool, Seq<LedgerOrder>),
            ErrorCode,
        >(e),
        res matches Ok((after, orders)) ==> swap_plan(*pool, *accounts, amount_in, minimum_amount_out) == Ok::<
            (Pool, Seq<LedgerOrder>),
            ErrorCode,
        >((after, orders@)) && after.wf() && after.product() >= pool.product(),
{
    if amount_in == 0 {
        return Err(ErrorCode::InvalidInput);
    }
    let a_to_b = accounts.input_vault == pool.token_a_vault;
    if !a_to_b && accounts.input_vault != pool.token_b_vault {
        return Err(ErrorCode::UnknownVault);
    }
    if pool.lp_token_supply == 0 {
        return Err(ErrorCode::EmptyPool);
    }
    let reserve_in = if a_to_b {
        pool.token_a_reserve
    } else {
        pool.token_b_reserve
    };
    let reserve_out = if a_to_b {
        pool.token_b_reserve
    } else {
        pool.token_a_reserve
    };
    proof {
        lemma_net_of_fee_bounds(amount_in as int, pool.fee_rate as int);
        lemma_swap_output_keeps_product(
            amount_in as int,
            reserve_in as int,
            reserve_out as int,
            pool.fee_rate as int,
        );
        lemma_swap_output_below_reserve(
            amount_in as int,
            reserve_in as int,
            reserve_out as int,
            pool.fee_rate as int,
        );
    }
    let amount_out = match quote_swap_output(amount_in, reserve_in, reserve_out, pool.fee_rate) {
        Ok(amount_out) => amount_out,
        Err(e) => {
            return Err(e);
        },
    };
    if amount_out < minimum_amount_out {
        return Err(ErrorCode::SlippageExceeded);
    }
    let new_reserve_in = match reserve_in.checked_add(amount_in) {
        Some(sum) => sum,
        None => {
            return Err(ErrorCode::ArithmeticOverflow);
        },
    };
    let new_reserve_out = reserve_out - amount_out;
    proof {
        lemma_product_grows(
            reserve_in as int,
            reserve_out as int,
            net_of_fee(amount_in as int, pool.fee_rate as int),
            amount_in as int,
            amount_out as int,
        );
    }
    let pair = AssetPair::new(pool.token_a_mint, pool.token_b_mint);
    let mut orders: Vec<LedgerOrder> = Vec::new();
    orders.push(
        LedgerOrder::Transfer {
            asset: if a_to_b {
                pool.token_a_mint
            } else {
                pool.token_b_mint
            },
            from: accounts.user_input,
            to: if a_to_b {
                pool.token_a_vault
            } else {
                pool.token_b_vault
            },
            amount: amount_in,
            authority: Authority::Account(accounts.user),
        },
    );
    orders.push(
        LedgerOrder::Transfer {
            asset: if a_to_b {
                pool.token_b_mint
            } else {
                pool.token_a_mint
            },
            from: if a_to_b {
                pool.token_b_vault
            } else {
                pool.token_a_vault
            },
            to: accounts.user_output,
            amount: amount_out,
            authority: derive_authority(pair),
        },
    );
    let after = if a_to_b {
        Pool {
            token_a_mint: pool.token_a_mint,
            token_b_mint: pool.token_b_mint,
            token_a_vault: pool.token_a_vault,
            token_b_vault: pool.token_b_vault,
            lp_token_mint: pool.lp_token_mint,
            fee_rate: pool.fee_rate,
            token_a_reserve: new_reserve_in,
            token_b_reserve: new_reserve_out,
            lp_token_supply: pool.lp_token_supply,
        }
    } else {
        Pool {
            token_a_mint: pool.token_a_mint,
            token_b_mint: pool.token_b_mint,
            token_a_vault: pool.token_a_vault,
            token_b_vault: pool.token_b_vault,
            lp_token_mint: pool.lp_token_mint,
            fee_rate: pool.fee_rate,
            token_a_reserve: new_reserve_out,
            token_b_reserve: new_reserve_in,
            lp_token_supply: pool.lp_token_supply,
        }
    };
    proof {
        assert(orders@ =~= swap_orders(*pool, *accounts, a_to_b, amount_in, amount_out));
    }
    Ok((after, orders))
}

/// Takes a swap one step further: `amount_in` into the vault
/// `accounts.input_vault`, for no less than `minimum_amount_out` from the
/// other vault.
///
/// `replies` holds what the ledger has answered so far to the orders of
/// this swap, and the other arguments stay the same from call to call. The
/// caller issues the order it is handed and calls again, until the swap is
/// settled or refused. The payout is ordered only once the input is
/// confirmed; where the ledger then refuses the payout, the swap has
/// failed, and nothing here moves the input back. The reserves change with
/// the last confirmation and at no other time, and their product never
/// falls.
pub fn swap(
    pool: &mut Pool,
    accounts: &Swap,
    amount_in: u64,
    minimum_amount_out: u64,
    replies: &Vec<LedgerReply>,
) -> (res: Result<Step, ErrorCode>)
    requires
        old(pool).wf(),
    ensures
        (res, *final(pool)) == settle(
            *old(pool),
            swap_plan(*old(pool), *accounts, amount_in, minimum_amount_out),
            replies@,
        ),
        res != Ok::<Step, ErrorCode>(Step::Settled) ==> *final(pool) == *old(pool),
        final(pool).wf(),
        final(pool).product() >= old(pool).product(),
{
    match plan_swap(pool, accounts, amount_in, minimum_amount_out) {
        Err(e) => Err(e),
        Ok((after, orders)) => {
            let step = advance(&orders, replies);
            if let Ok(Step::Settled) = step {
                *pool = after;
            }
            step
        },
    }
}

/// The accounts named in a deposit: who deposits, from which two accounts,
/// and the account that takes the shares.
#[derive(Clone, Copy, Debug, PartialEq, Eq, Structural)]
pub struct AddLiquidity {
    pub user: Identity,
    pub user_token_a: Identity,
    pub user_token_b: Identity,
    pub user_lp_token: Identity,
}

/// The pool after a deposit of `amount_a` and `amount_b` for `shares`.
pub open spec fn pool_after_deposit(pool: Pool, amount_a: u64, amount_b: u64, shares: u64) -> Pool {
    Pool {
        token_a_reserve: (pool.token_a_reserve + amount_a) as u64,
        token_b_reserve: (pool.token_b_reserve + amount_b) as u64,
        lp_token_supply: (pool.lp_token_supply + shares) as u64,
        ..pool
    }
}

/// The orders of a deposit: asset A into its vault, asset B into its
/// vault, then the shares to the depositor on the pool's own authority.
pub open spec fn add_liquidity_orders(
    pool: Pool,
    accounts: AddLiquidity,
    amount_a: u64,
    amount_b: u64,
    shares: u64,
) -> Seq<LedgerOrder> {
    seq![
        LedgerOrder::Transfer {
            asset: pool.token_a_mint,
            from: accounts.user_token_a,
            to: pool.token_a_vault,
            amount: amount_a,
            authority: Authority::Account(accounts.user),
        },
        LedgerOrder::Transfer {
            asset: pool.token_b_mint,
            from: accounts.user_token_b,
            to: pool.token_b_vault,
            amount: amount_b,
            authority: Authority::Account(accounts.user),
        },
        LedgerOrder::Mint {
            asset: pool.lp_token_mint,
            to: accounts.user_lp_token,
            amount: shares,
            authority: pool_authority(pool.pair()),
        },
    ]
}

/// The shares that a pool mints for a deposit.
pub open spec fn deposit_shares(pool: Pool, amount_a: u64, amount_b: u64) -> int {
    liquidity_shares(
        amount_a as int,
        amount_b as int,
        pool.token_a_reserve as int,
        pool.token_b_reserve as int,
        pool.lp_token_supply as int,
    )
}

/// What a deposit decides: why it is refused, or the pool that it leads to
/// and the orders that go with it.
pub open spec fn add_liquidity_plan(pool: Pool, accounts: AddLiquidity, amount_a: u64, amount_b: u64) -> Result<
    (Pool, Seq<LedgerOrder>),
    ErrorCode,
> {
    let shares = deposit_shares(pool, amount_a, amount_b);
    if amount_a == 0 || amount_b == 0 {
        Err(ErrorCode::InvalidInput)
    } else if shares > u64::MAX || pool.token_a_reserve + amount_a > u64::MAX || pool.token_b_reserve
        + amount_b > u64::MAX || pool.lp_token_supply + shares > u64::MAX {
        Err(ErrorCode::ArithmeticOverflow)
    } else {
        Ok(
            (
                pool_after_deposit(pool, amount_a, amount_b, shares as u64),
                add_liquidity_orders(pool, accounts, amount_a, amount_b, shares as u64),
            ),
        )
    }
}

fn plan_add_liquidity(pool: &Pool, accounts: &AddLiquidity, amount_a: u64, amount_b: u64) -> (res: Result<
    (Pool, Vec<LedgerOrder>),
    ErrorCode,
>)
    requires
        pool.wf(),
    ensures
        res matches Err(e) ==> add_liquidity_plan(*pool, *accounts, amount_a, amount_b) == Err::<
            (Pool, Seq<LedgerOrder>),
            ErrorCode,
        >(e),
        res matches Ok((after, orders)) ==> add_liquidity_plan(*pool, *accounts, amount_a, amount_b) == Ok::<
            (Pool, Seq<LedgerOrder>),
            ErrorCode,
        >((after, orders@)) && after.wf(),
{
    if amount_a == 0 || amount_b == 0 {
        return Err(ErrorCode::InvalidInput);
    }
    proof {
        lemma_initial_shares_bounds(amount_a, amount_b);
    }
    let shares = match quote_liquidity_shares(
        amount_a,
        amount_b,
        pool.token_a_reserve,
        pool.token_b_reserve,
        pool.lp_token_supply,
    ) {
        Ok(shares) => shares,
        Err(e) => {
            return Err(e);
        },
    };
    let reserve_a = match pool.token_a_reserve.checked_add(amount_a) {
        Some(sum) => sum,
        None => {
            return Err(ErrorCode::ArithmeticOverflow);
        },
    };
    let reserve_b = match pool.token_b_reserve.checked_add(amount_b) {
        Some(sum) => sum,
        None => {
            return Err(ErrorCode::ArithmeticOverflow);
        },
    };
    let supply = match pool.lp_token_supply.checked_add(shares) {
        Some(sum) => sum,
        None => {
            return Err(ErrorCode::ArithmeticOverflow);
        },
    };
    let pair = AssetPair::new(pool.token_a_mint, pool.token_b_mint);
    let mut orders: Vec<LedgerOrder> = Vec::new();
    orders.push(
        LedgerOrder::Transfer {
            asset: pool.token_a_mint,
            from: accounts.user_token_a,
            to: pool.token_a_vault,
            amount: amount_a,
            authority: Authority::Account(accounts.user),
        },
    );
    orders.push(
        LedgerOrder::Transfer {
            asset: pool.token_b_mint,
            from: accounts.user_token_b,
            to: pool.token_b_vault,
            amount: amount_b,
            authority: Authority::Account(accounts.user),
        },
    );
    orders.push(
        LedgerOrder::Mint {
            asset: pool.lp_token_mint,
            to: accounts.user_lp_token,
            amount: shares,
            authority: derive_authority(pair),
        },
    );
    let after = Pool {
        token_a_mint: pool.token_a_mint,
        token_b_mint: pool.token_b_mint,
        token_a_vault: pool.token_a_vault,
        token_b_vault: pool.token_b_vault,
        lp_token_mint: pool.lp_token_mint,
        fee_rate: pool.fee_rate,
        token_a_reserve: reserve_a,
        token_b_reserve: reserve_b,
        lp_token_supply: supply,
    };
    proof {
        assert(orders@ =~= add_liquidity_orders(*pool, *accounts, amount_a, amount_b, shares));
    }
    Ok((after, orders))
}

/// Takes a deposit one step further: `amount_a` of asset A and `amount_b`
/// of asset B into the pool, for the shares they are worth.
///
/// `replies` holds what the ledger has answered so far to the orders of
/// this deposit, and the other arguments stay the same from call to call.
/// The caller issues the order it is handed and calls again, until the
/// deposit is settled or refused. The pool changes with the last
/// confirmation and at no other time.
pub fn add_liquidity(
    pool: &mut Pool,
    accounts: &AddLiquidity,
    amount_a: u64,
    amount_b: u64,
    replies: &Vec<LedgerReply>,
) -> (res: Result<Step, ErrorCode>)
    requires
        old(pool).wf(),
    ensures
        (res, *final(pool)) == settle(
            *old(pool),
            add_liquidity_plan(*old(pool), *accounts, amount_a, amount_b),
            replies@,
        ),
        res != Ok::<Step, ErrorCode>(Step::Settled) ==> *final(pool) == *old(pool),
        final(pool).wf(),
{
    match plan_add_liquidity(pool, accounts, amount_a, amount_b) {
        Err(e) => Err(e),
        Ok((after, orders)) => {
            let step = advance(&orders, replies);
            if let Ok(Step::Settled) = step {
                *pool = after;
            }
            step
        },
    }
}

/// The accounts named in a withdrawal: who withdraws, the two accounts
/// that are paid, the account that the shares are burnt from, and the
/// shares that it held when the withdrawal began.
#[derive(Clone, Copy, Debug, PartialEq, Eq, Structural)]
pub struct RemoveLiquidity {
    pub user: Identity,
    pub user_token_a: Identity,
    pub user_token_b: Identity,
    pub user_lp_token: Identity,
    pub lp_balance: u64,
}

/// What `share_amount` shares are worth of a reserve: the same part of it
/// as they are of the supply, rounded down.
pub open spec fn withdrawal_amount(share_amount: int, reserve: int, share_supply: int) -> int {
    share_amount * reserve / share_supply
}

/// The pool after `share_amount` shares are redeemed.
pub open spec fn pool_after_withdrawal(pool: Pool, share_amount: u64) -> Pool {
    Pool {
        token_a_reserve: (pool.token_a_reserve - withdrawal_amount(
            share_amount as int,
            pool.token_a_reserve as int,
            pool.lp_token_supply as int,
        )) as u64,
        token_b_reserve: (pool.token_b_reserve - withdrawal_amount(
            share_amount as int,
            pool.token_b_reserve as int,
            pool.lp_token_supply as int,
        )) as u64,
        lp_token_supply: (pool.lp_token_supply - share_amount) as u64,
        ..pool
    }
}

/// The orders of a withdrawal: the shares are burnt, then each vault pays
/// its part on the pool's own authority.
pub open spec fn remove_liquidity_orders(pool: Pool, accounts: RemoveLiquidity, share_amount: u64) -> Seq<
    LedgerOrder,
> {
    seq![
        LedgerOrder::Burn {
            asset: pool.lp_token_mint,
            from: accounts.user_lp_token,
            amount: share_amount,
            authority: Authority::Account(accounts.user),
        },
        LedgerOrder::Transfer {
            asset: pool.token_a_mint,
            from: pool.token_a_vault,
            to: accounts.user_token_a,
            amount: withdrawal_amount(
                share_amount as int,
                pool.token_a_reserve as int,
                pool.lp_token_supply as int,
            ) as u64,
            authority: pool_authority(pool.pair()),
        },
        LedgerOrder::Transfer {
            asset: pool.token_b_mint,
            from: pool.token_b_vault,
            to: accounts.user_token_b,
            amount: withdrawal_amount(
                share_amount as int,
                pool.token_b_reserve as int,
                pool.lp_token_supply as int,
            ) as u64,
            authority: pool_authority(pool.pair()),
        },
    ]
}

/// What a withdrawal decides: why it is refused, or the pool that it leads
/// to and the orders that go with it.
///
/// More shares than the pool has issued cannot be redeemed, whatever
/// balance the caller reports.
pub open spec fn remove_liquidity_plan(pool: Pool, accounts: RemoveLiquidity, share_amount: u64) -> Result<
    (Pool, Seq<LedgerOrder>),
    ErrorCode,
> {
    if share_amount == 0 {
        Err(ErrorCode::InvalidInput)
    } else if pool.lp_token_supply == 0 {
        Err(ErrorCode::EmptyPool)
    } else if share_amount > accounts.lp_balance {
        Err(ErrorCode::InsufficientShares)
    } else if share_amount > pool.lp_token_supply {
        Err(ErrorCode::ReserveUnderflow)
    } else {
        Ok((pool_after_withdrawal(pool, share_amount), remove_liquidity_orders(pool, accounts, share_amount)))
    }
}

/// A part of the shares is worth no more than the reserve; less than all
/// of them is worth less than a reserve that holds something, and all of
/// them are worth all of it.
pub proof fn lemma_withdrawal_bounds(share_amount: int, reserve: int, share_supply: int)
    by (nonlinear_arith)
    requires
        0 < share_amount <= share_supply,
        0 <= reserve,
    ensures
        0 <= share_amount * reserve <= share_supply * reserve,
        0 <= withdrawal_amount(share_amount, reserve, share_supply) <= reserve,
        share_amount < share_supply && reserve > 0 ==> withdrawal_amount(share_amount, reserve, share_supply)
            < reserve,
        share_amount == share_supply ==> withdrawal_amount(share_amount, reserve, share_supply) == reserve,
{
}

fn redeem(share_amount: u64, reserve: u64, share_supply: u64) -> (amount: u64)
    requires
        0 < share_amount <= share_supply,
    ensures
        amount == withdrawal_amount(share_amount as int, reserve as int, share_supply as int),
{
    proof {
        lemma_withdrawal_bounds(share_amount as int, reserve as int, share_supply as int);
        assert(share_supply * reserve <= u128::MAX) by (nonlinear_arith)
            requires
                share_supply <= u64::MAX,
                reserve <= u64::MAX,
        ;
    }
    let amount: u128 = (share_amount as u128) * (reserve as u128) / (share_supply as u128);
    amount as u64
}

fn plan_remove_liquidity(pool: &Pool, accounts: &RemoveLiquidity, share_amount: u64) -> (res: Result<
    (Pool, Vec<LedgerOrder>),
    ErrorCode,
>)
    requires
        pool.wf(),
    ensures
        res matches Err(e) ==> remove_liquidity_plan(*pool, *accounts, share_amount) == Err::<
            (Pool, Seq<LedgerOrder>),
            ErrorCode,
        >(e),
        res matches Ok((after, orders)) ==> remove_liquidity_plan(*pool, *accounts, share_amount) == Ok::<
            (Pool, Seq<LedgerOrder>),
            ErrorCode,
        >((after, orders@)) && after.wf(),
{
    if share_amount == 0 {
        return Err(ErrorCode::InvalidInput);
    }
    if pool.lp_token_supply == 0 {
        return Err(ErrorCode::EmptyPool);
    }
    if share_amount > accounts.lp_balance {
        return Err(ErrorCode::InsufficientShares);
    }
    if share_amount > pool.lp_token_supply {
        return Err(ErrorCode::ReserveUnderflow);
    }
    proof {
        lemma_withdrawal_bounds(
            share_amount as int,
            pool.token_a_reserve as int,
            pool.lp_token_supply as int,
        );
        lemma_withdrawal_bounds(
            share_amount as int,
            pool.token_b_reserve as int,
            pool.lp_token_supply as int,
        );
    }
    let amount_a = redeem(share_amount, pool.token_a_reserve, pool.lp_token_supply);
    let amount_b = redeem(share_amount, pool.token_b_reserve, pool.lp_token_supply);
    let pair = AssetPair::new(pool.token_a_mint, pool.token_b_mint);
    let mut orders: Vec<LedgerOrder> = Vec::new();
    orders.push(
        LedgerOrder::Burn {
            asset: pool.lp_token_mint,
            from: accounts.user_lp_token,
            amount: share_amount,
            authority: Authority::Account(accounts.user),
        },
    );
    orders.push(
        LedgerOrder::Transfer {
            asset: pool.token_a_mint,
            from: pool.token_a_vault,
            to: accounts.user_token_a,
            amount: amount_a,
            authority: derive_authority(pair),
        },
    );
    orders.push(
        LedgerOrder::Transfer {
            asset: pool.token_b_mint,
            from: pool.token_b_vault,
            to: accounts.user_token_b,
            amount: amount_b,
            authority: derive_authority(pair),
        },
    );
    let after = Pool {
        token_a_mint: pool.token_a_mint,
        token_b_mint: pool.token_b_mint,
        token_a_vault: pool.token_a_vault,
        token_b_vault: pool.token_b_vault,
        lp_token_mint: pool.lp_token_mint,
        fee_rate: pool.fee_rate,
        token_a_reserve: pool.token_a_reserve - amount_a,
        token_b_reserve: pool.token_b_reserve - amount_b,
        lp_token_supply: pool.lp_token_supply - share_amount,
    };
    proof {
        assert(orders@ =~= remove_liquidity_orders(*pool, *accounts, share_amount));
    }
    Ok((after, orders))
}

/// Takes a withdrawal one step further: `share_amount` shares are
/// redeemed for their part of both reserves.
///
/// `replies` holds what the ledger has answered so far to the orders of
/// this withdrawal, and the other arguments stay the same from call to
/// call. The caller issues the order it is handed and calls again, until
/// the withdrawal is settled or refused. The pool changes with the last
/// confirmation and at no other time.
pub fn remove_liquidity(
    pool: &mut Pool,
    accounts: &RemoveLiquidity,
    share_amount: u64,
    replies: &Vec<LedgerReply>,
) -> (res: Result<Step, ErrorCode>)
    requires
        old(pool).wf(),
    ensures
        (res, *final(pool)) == settle(
            *old(pool),
            remove_liquidity_plan(*old(pool), *accounts, share_amount),
            replies@,
        ),
        res != Ok::<Step, ErrorCode>(Step::Settled) ==> *final(pool) == *old(pool),
        final(pool).wf(),
{
    match plan_remove_liquidity(pool, accounts, share_amount) {
        Err(e) => Err(e),
        Ok((after, orders)) => {
            let step = advance(&orders, replies);
            if let Ok(Step::Settled) = step {
                *pool = after;
            }
            step
        },
    }
}

proof fn lemma_round_trip_amount(shares: int, amount: int, reserve: int, supply: int)
    by (nonlinear_arith)
    requires
        0 < supply,
        0 < reserve,
        0 <= amount,
        0 <= shares <= amount * supply / reserve,
    ensures
        shares * (reserve + amount) / (supply + shares) <= amount,
{
}

/// A deposit that is withdrawn at once gives back no more than went in.
///
/// Where a deposit of `amount_a` and `amount_b` is accepted and earns
/// shares, the withdrawal of just those shares from the pool it leads to is
/// accepted from whoever holds them, and pays out at most `amount_a` and
/// `amount_b`. Where the deposit was the pool's first, it pays out exactly
/// what went in.
pub proof fn lemma_deposit_then_withdraw(
    pool: Pool,
    deposit: AddLiquidity,
    amount_a: u64,
    amount_b: u64,
    withdrawal: RemoveLiquidity,
)
    requires
        pool.wf(),
        add_liquidity_plan(pool, deposit, amount_a, amount_b) is Ok,
        0 < deposit_shares(pool, amount_a, amount_b) <= withdrawal.lp_balance,
    ensures
        ({
            let shares = deposit_shares(pool, amount_a, amount_b);
            let seeded = pool_after_deposit(pool, amount_a, amount_b, shares as u64);
            let paid_a = withdrawal_amount(shares, seeded.token_a_reserve as int, seeded.lp_token_supply as int);
            let paid_b = withdrawal_amount(shares, seeded.token_b_reserve as int, seeded.lp_token_supply as int);
            &&& remove_liquidity_plan(seeded, withdrawal, shares as u64) == Ok::<
                (Pool, Seq<LedgerOrder>),
                ErrorCode,
            >(
                (
                    pool_after_withdrawal(seeded, shares as u64),
                    remove_liquidity_orders(seeded, withdrawal, shares as u64),
                ),
            )
            &&& 0 <= paid_a <= amount_a
            &&& 0 <= paid_b <= amount_b
            &&& pool.lp_token_supply == 0 ==> paid_a == amount_a && paid_b == amount_b
        }),
{
    let shares = deposit_shares(pool, amount_a, amount_b);
    let seeded = pool_after_deposit(pool, amount_a, amount_b, shares as u64);
    lemma_withdrawal_bounds(shares, seeded.token_a_reserve as int, seeded.lp_token_supply as int);
    lemma_withdrawal_bounds(shares, seeded.token_b_reserve as int, seeded.lp_token_supply as int);
    if pool.lp_token_supply > 0 {
        lemma_round_trip_amount(
            shares,
            amount_a as int,
            pool.token_a_reserve as int,
            pool.lp_token_supply as int,
        );
        lemma_round_trip_amount(
            shares,
            amount_b as int,
            pool.token_b_reserve as int,
            pool.lp_token_supply as int,
        );
    }
}

} // verus!
