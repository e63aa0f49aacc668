use crate::error::ErrorCode;
use vstd::prelude::*;

verus! {

/// The fee rate that stands for the whole amount, in basis points.
pub const FEE_DENOMINATOR: u16 = 10000;

/// Whether `root` is the integer square root of `n`: the largest number
/// whose square does not exceed `n`.
pub open spec fn is_sqrt_floor(n: nat, root: nat) -> bool {
    root * root <= n < (root + 1) * (root + 1)
}

/// The integer square root of `n`.
pub open spec fn sqrt_floor(n: nat) -> nat {
    choose|root: nat| is_sqrt_floor(n, root)
}

proof fn lemma_sqrt_floor_step(n: nat, root: nat)
    by (nonlinear_arith)
    requires
        n > 0,
        root * root <= n - 1,
        n - 1 < (root + 1) * (root + 1),
    ensures
        (root + 1) * (root + 1) <= n ==> n < (root + 2) * (root + 2),
        root * root <= n,
{
}

proof fn lemma_sqrt_floor_exists(n: nat)
    ensures
        exists|root: nat| is_sqrt_floor(n, root),
    decreases n,
{
    if n == 0 {
        assert(0nat * 0nat <= 0nat < (0nat + 1) * (0nat + 1)) by (nonlinear_arith);
        assert(is_sqrt_floor(0, 0));
    } else {
        let m = (n - 1) as nat;
        lemma_sqrt_floor_exists(m);
        let root = choose|root: nat| is_sqrt_floor(m, root);
        lemma_sqrt_floor_step(n, root);
        if (root + 1) * (root + 1) <= n {
            assert(is_sqrt_floor(n, root + 1));
        } else {
            assert(is_sqrt_floor(n, root));
        }
    }
}

proof fn lemma_sqrt_floor_unique(n: nat, first: nat, second: nat)
    by (nonlinear_arith)
    requires
        first * first <= n < (first + 1) * (first + 1),
        second * second <= n < (second + 1) * (second + 1),
    ensures
        first == second,
{
}

/// Every number has exactly one integer square root, and `sqrt_floor` is it.
pub proof fn lemma_sqrt_floor(n: nat)
    ensures
        is_sqrt_floor(n, sqrt_floor(n)),
        forall|root: nat| is_sqrt_floor(n, root) ==> root == sqrt_floor(n),
{
    lemma_sqrt_floor_exists(n);
    assert forall|root: nat| is_sqrt_floor(n, root) implies root == sqrt_floor(n) by {
        lemma_sqrt_floor_unique(n, root, sqrt_floor(n));
    }
}

proof fn lemma_square_fits(mid: u128)
    by (nonlinear_arith)
    requires
        mid < 0x1_0000_0000_0000_0000,
    ensures
        mid * mid <= u128::MAX,
{
}

/// The integer square root of `n`, found by bisection.
pub fn isqrt(n: u128) -> (root: u64)
    ensures
        root == sqrt_floor(n as nat),
        is_sqrt_floor(n as nat, root as nat),
{
    let mut lo: u128 = 0;
    let mut hi: u128 = 0x1_0000_0000_0000_0000;
    assert(n < hi * hi) by (nonlinear_arith)
        requires
            hi == 0x1_0000_0000_0000_0000,
            n <= u128::MAX,
    ;
    while hi - lo > 1
        invariant
            lo < hi <= 0x1_0000_0000_0000_0000,
            lo * lo <= n < hi * hi,
        decreases hi - lo,
    {
        let mid: u128 = lo + (hi - lo) / 2;
        proof {
            lemma_square_fits(mid);
        }
        if mid * mid <= n {
            lo = mid;
        } else {
            hi = mid;
        }
    }
    proof {
        assert(hi == lo + 1);
        assert(is_sqrt_floor(n as nat, lo as nat));
        lemma_sqrt_floor(n as nat);
    }
    lo as u64
}

/// What is left of `amount_in` once the fee of `fee_rate` basis points is
/// taken from it, rounded down.
pub open spec fn net_of_fee(amount_in: int, fee_rate: int) -> int {
    amount_in * (10000 - fee_rate) / 10000
}

/// What a constant-product pool pays out for `amount_in`: the fee is taken
/// from the input first, and the rest is priced against the two reserves.
/// Both divisions round down.
pub open spec fn swap_output(amount_in: int, reserve_in: int, reserve_out: int, fee_rate: int) -> int {
    let net = net_of_fee(amount_in, fee_rate);
    net * reserve_out / (reserve_in + net)
}

/// The answer to a request for a quote: the payout, or why there is none.
pub open spec fn swap_quote(amount_in: u64, reserve_in: u64, reserve_out: u64, fee_rate: u16) -> Result<
    u64,
    ErrorCode,
> {
    if fee_rate > FEE_DENOMINATOR {
        Err(ErrorCode::InvalidInput)
    } else if reserve_in + net_of_fee(amount_in as int, fee_rate as int) == 0 {
        Err(ErrorCode::EmptyPool)
    } else {
        Ok(swap_output(amount_in as int, reserve_in as int, reserve_out as int, fee_rate as int) as u64)
    }
}

proof fn lemma_div_at_most(x: int, d: int, bound: int)
    by (nonlinear_arith)
    requires
        d > 0,
        0 <= x <= bound * d,
    ensures
        0 <= x / d <= bound,
{
}

proof fn lemma_div_times(x: int, d: int)
    by (nonlinear_arith)
    requires
        d > 0,
        0 <= x,
    ensures
        0 <= (x / d) * d <= x,
        x < (x / d) * d + d,
{
}

proof fn lemma_product_bound(x: int, y: int, x_max: int, y_max: int)
    by (nonlinear_arith)
    requires
        0 <= x <= x_max,
        0 <= y <= y_max,
    ensures
        0 <= x * y <= x_max * y_max,
{
}

/// The net amount is between nothing and the whole input.
pub proof fn lemma_net_of_fee_bounds(amount_in: int, fee_rate: int)
    requires
        0 <= amount_in,
        0 <= fee_rate <= 10000,
    ensures
        0 <= net_of_fee(amount_in, fee_rate) <= amount_in,
{
    lemma_product_bound(amount_in, 10000 - fee_rate, amount_in, 10000);
    lemma_div_at_most(amount_in * (10000 - fee_rate), 10000, amount_in);
}

/// The payout never exceeds the reserve it is taken from, and the product
/// of the reserves, with the net input added to one and the payout taken
/// from the other, is no smaller than it was.
pub proof fn lemma_swap_output_keeps_product(amount_in: int, reserve_in: int, reserve_out: int, fee_rate: int)
    requires
        0 <= amount_in,
        0 <= reserve_in,
        0 <= reserve_out,
        0 <= fee_rate <= 10000,
        reserve_in + net_of_fee(amount_in, fee_rate) > 0,
    ensures
        0 <= swap_output(amount_in, reserve_in, reserve_out, fee_rate) <= reserve_out,
        (reserve_in + net_of_fee(amount_in, fee_rate)) * (reserve_out - swap_output(
            amount_in,
            reserve_in,
            reserve_out,
            fee_rate,
        )) >= reserve_in * reserve_out,
{
    lemma_net_of_fee_bounds(amount_in, fee_rate);
    let net = net_of_fee(amount_in, fee_rate);
    let out = swap_output(amount_in, reserve_in, reserve_out, fee_rate);
    let denom = reserve_in + net;
    lemma_product_bound(net, reserve_out, denom, reserve_out);
    assert(denom * reserve_out == reserve_out * denom) by (nonlinear_arith);
    lemma_div_at_most(net * reserve_out, denom, reserve_out);
    lemma_div_times(net * reserve_out, denom);
    assert(denom * (reserve_out - out) >= reserve_in * reserve_out) by (nonlinear_arith)
        requires
            denom == reserve_in + net,
            out * denom <= net * reserve_out,
    ;
}

/// The payout taken strictly below a reserve that the pool holds: a swap
/// cannot empty a seeded pool.
pub proof fn lemma_swap_output_below_reserve(amount_in: int, reserve_in: int, reserve_out: int, fee_rate: int)
    requires
        0 <= amount_in,
        0 < reserve_in,
        0 < reserve_out,
        0 <= fee_rate <= 10000,
    ensures
        swap_output(amount_in, reserve_in, reserve_out, fee_rate) < reserve_out,
{
    lemma_net_of_fee_bounds(amount_in, fee_rate);
    let net = net_of_fee(amount_in, fee_rate);
    let out = swap_output(amount_in, reserve_in, reserve_out, fee_rate);
    let denom = reserve_in + net;
    lemma_product_bound(net, reserve_out, net, reserve_out);
    lemma_div_times(net * reserve_out, denom);
    assert(out < reserve_out) by (nonlinear_arith)
        requires
            denom == reserve_in + net,
            reserve_in > 0,
            reserve_out > 0,
            net >= 0,
            out >= 0,
            out * denom <= net * reserve_out,
    ;
}

/// Quotes a swap: what a pool with the given reserves pays out for
/// `amount_in` at a fee of `fee_rate` basis points.
///
/// The products are taken in 128 bits, which holds the product of any two
/// balances, and the payout is never more than `reserve_out`. A fee rate
/// above the whole amount is refused; so is a quote against nothing, where
/// the reserve on the input side and the net input are both zero.
pub fn quote_swap_output(amount_in: u64, reserve_in: u64, reserve_out: u64, fee_rate: u16) -> (res: Result<
    u64,
    ErrorCode,
>)
    ensures
        res == swap_quote(amount_in, reserve_in, reserve_out, fee_rate),
        res matches Ok(amount_out) ==> amount_out == swap_output(
            amount_in as int,
            reserve_in as int,
            reserve_out as int,
            fee_rate as int,
        ),
{
    if fee_rate > FEE_DENOMINATOR {
        return Err(ErrorCode::InvalidInput);
    }
    let keep: u128 = (FEE_DENOMINATOR - fee_rate) as u128;
    proof {
        lemma_product_bound(amount_in as int, keep as int, u64::MAX as int, 10000);
        lemma_net_of_fee_bounds(amount_in as int, fee_rate as int);
    }
    let net: u128 = (amount_in as u128) * keep / 10000;
    let denom: u128 = reserve_in as u128 + net;
    if denom == 0 {
        return Err(ErrorCode::EmptyPool);
    }
    proof {
        lemma_product_bound(net as int, reserve_out as int, u64::MAX as int, u64::MAX as int);
        lemma_swap_output_keeps_product(amount_in as int, reserve_in as int, reserve_out as int, fee_rate as int);
    }
    let amount_out: u128 = net * (reserve_out as u128) / denom;
    Ok(amount_out as u64)
}

proof fn lemma_fraction_monotonic(first_top: int, first_bottom: int, second_top: int, second_bottom: int)
    requires
        first_bottom > 0,
        second_bottom > 0,
        0 <= first_top,
        0 <= second_top,
        first_top * second_bottom <= second_top * first_bottom,
    ensures
        first_top / first_bottom <= second_top / second_bottom,
{
    let k = first_top / first_bottom;
    let m = second_top / second_bottom;
    lemma_div_times(first_top, first_bottom);
    lemma_div_times(second_top, second_bottom);
    if k > m {
        assert(false) by (nonlinear_arith)
            requires
                first_bottom > 0,
                second_bottom > 0,
                k >= m + 1,
                0 <= k * first_bottom <= first_top,
                second_top < m * second_bottom + second_bottom,
                first_top * second_bottom <= second_top * first_bottom,
        ;
    }
}

/// Less input never buys more: the payout does not fall when the input
/// grows. Rounding can make two inputs buy the same.
pub proof fn lemma_swap_output_monotonic(
    smaller: int,
    larger: int,
    reserve_in: int,
    reserve_out: int,
    fee_rate: int,
)
    requires
        0 <= smaller <= larger,
        0 <= reserve_in,
        0 <= reserve_out,
        0 <= fee_rate <= 10000,
        reserve_in + net_of_fee(smaller, fee_rate) > 0,
    ensures
        net_of_fee(smaller, fee_rate) <= net_of_fee(larger, fee_rate),
        swap_output(smaller, reserve_in, reserve_out, fee_rate) <= swap_output(
            larger,
            reserve_in,
            reserve_out,
            fee_rate,
        ),
{
    lemma_net_of_fee_bounds(smaller, fee_rate);
    lemma_net_of_fee_bounds(larger, fee_rate);
    let keep = 10000 - fee_rate;
    lemma_product_bound(smaller, keep, larger, keep);
    lemma_fraction_monotonic(smaller * keep, 10000, larger * keep, 10000);
    let n1 = net_of_fee(smaller, fee_rate);
    let n2 = net_of_fee(larger, fee_rate);
    lemma_product_bound(n1, reserve_out, n1, reserve_out);
    lemma_product_bound(n2, reserve_out, n2, reserve_out);
    assert((n1 * reserve_out) * (reserve_in + n2) <= (n2 * reserve_out) * (reserve_in + n1))
        by (nonlinear_arith)
        requires
            0 <= n1 <= n2,
            0 <= reserve_in,
            0 <= reserve_out,
    ;
    lemma_fraction_monotonic(n1 * reserve_out, reserve_in + n1, n2 * reserve_out, reserve_in + n2);
}

/// Before rounding, the price is strictly increasing: of two net inputs
/// into a seeded pool, the larger buys the strictly larger fraction of the
/// reserve. The fractions `net * reserve_out / (reserve_in + net)` are
/// compared by cross-multiplication.
pub proof fn lemma_price_strictly_increasing(smaller: int, larger: int, reserve_in: int, reserve_out: int)
    by (nonlinear_arith)
    requires
        0 <= smaller < larger,
        0 < reserve_in,
        0 < reserve_out,
    ensures
        (smaller * reserve_out) * (reserve_in + larger) < (larger * reserve_out) * (reserve_in + smaller),
{
}

/// The shares that `amount` of one asset is worth in a seeded pool: the
/// same part of the supply as `amount` is of the reserve, rounded down.
pub open spec fn proportional_shares(amount: int, reserve: int, share_supply: int) -> int {
    amount * share_supply / reserve
}

/// The shares minted for a deposit of `amount_a` and `amount_b`.
///
/// The first deposit into a pool is worth the geometric mean of the two
/// amounts. A later one is worth the lesser of what each amount is worth
/// alone, so that an unbalanced deposit earns nothing for its surplus.
pub open spec fn liquidity_shares(
    amount_a: int,
    amount_b: int,
    reserve_a: int,
    reserve_b: int,
    share_supply: int,
) -> int {
    if share_supply == 0 {
        sqrt_floor((amount_a * amount_b) as nat) as int
    } else {
        let by_a = proportional_shares(amount_a, reserve_a, share_supply);
        let by_b = proportional_shares(amount_b, reserve_b, share_supply);
        if by_a <= by_b {
            by_a
        } else {
            by_b
        }
    }
}

/// The answer to a request for the shares of a deposit: their number, or
/// why there is none.
pub open spec fn shares_quote(
    amount_a: u64,
    amount_b: u64,
    reserve_a: u64,
    reserve_b: u64,
    share_supply: u64,
) -> Result<u64, ErrorCode> {
    let shares = liquidity_shares(
        amount_a as int,
        amount_b as int,
        reserve_a as int,
        reserve_b as int,
        share_supply as int,
    );
    if share_supply > 0 && (reserve_a == 0 || reserve_b == 0) {
        Err(ErrorCode::EmptyPool)
    } else if shares > u64::MAX {
        Err(ErrorCode::ArithmeticOverflow)
    } else {
        Ok(shares as u64)
    }
}

proof fn lemma_root_fits(root: nat, n: nat)
    by (nonlinear_arith)
    requires
        root * root <= n,
        n < 0x1_0000_0000_0000_0000_0000_0000_0000_0000,
    ensures
        root < 0x1_0000_0000_0000_0000,
{
}

/// The shares of a first deposit fit in 64 bits, and are at least one
/// where both amounts are.
pub proof fn lemma_initial_shares_bounds(amount_a: u64, amount_b: u64)
    ensures
        0 <= amount_a * amount_b <= u128::MAX,
        sqrt_floor((amount_a * amount_b) as nat) <= u64::MAX,
        amount_a > 0 && amount_b > 0 ==> sqrt_floor((amount_a * amount_b) as nat) >= 1,
{
    lemma_product_bound(amount_a as int, amount_b as int, u64::MAX as int, u64::MAX as int);
    let n = (amount_a * amount_b) as nat;
    lemma_sqrt_floor(n);
    lemma_root_fits(sqrt_floor(n), n);
    if amount_a > 0 && amount_b > 0 {
        lemma_product_bound(1, 1, amount_a as int, amount_b as int);
        assert(sqrt_floor(n) >= 1) by (nonlinear_arith)
            requires
                n >= 1,
                n < (sqrt_floor(n) + 1) * (sqrt_floor(n) + 1),
        ;
    }
}

/// Quotes a deposit: the shares minted for `amount_a` and `amount_b` by a
/// pool with the given reserves and share supply.
///
/// With no shares in issue the deposit seeds the pool. Otherwise both
/// reserves must hold something, and the shares must fit in 64 bits.
pub fn quote_liquidity_shares(
    amount_a: u64,
    amount_b: u64,
    reserve_a: u64,
    reserve_b: u64,
    share_supply: u64,
) -> (res: Result<u64, ErrorCode>)
    ensures
        res == shares_quote(amount_a, amount_b, reserve_a, reserve_b, share_supply),
        res matches Ok(shares) ==> shares == liquidity_shares(
            amount_a as int,
            amount_b as int,
            reserve_a as int,
            reserve_b as int,
            share_supply as int,
        ),
{
    proof {
        lemma_initial_shares_bounds(amount_a, amount_b);
    }
    if share_supply == 0 {
        return Ok(isqrt((amount_a as u128) * (amount_b as u128)));
    }
    if reserve_a == 0 || reserve_b == 0 {
        return Err(ErrorCode::EmptyPool);
    }
    proof {
        lemma_product_bound(amount_a as int, share_supply as int, u64::MAX as int, u64::MAX as int);
        lemma_product_bound(amount_b as int, share_supply as int, u64::MAX as int, u64::MAX as int);
    }
    let by_a: u128 = (amount_a as u128) * (share_supply as u128) / (reserve_a as u128);
    let by_b: u128 = (amount_b as u128) * (share_supply as u128) / (reserve_b as u128);
    let shares: u128 = if by_a <= by_b {
        by_a
    } else {
        by_b
    };
    if shares > u64::MAX as u128 {
        Err(ErrorCode::ArithmeticOverflow)
    } else {
        Ok(shares as u64)
    }
}

} // verus!
