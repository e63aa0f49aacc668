use crate::error::ErrorCode;
use crate::identity::AssetPair;
use crate::identity::Identity;
use vstd::prelude::*;

verus! {

/// By whose authority the ledger carries out an order.
#[derive(Clone, Copy, Debug, PartialEq, Eq, Structural)]
pub enum Authority {
    /// The holder of the account that is debited.
    Account(Identity),
    /// The signing identity of the pool of a pair of assets. It is derived
    /// from the pair alone; no key stands behind it.
    Pool(AssetPair),
    /// The signing identity of the sale of a token, derived from the token
    /// alone.
    Launch(Identity),
}

/// The authority over the vaults and the share mint of the pool of `pair`.
pub open spec fn pool_authority(pair: AssetPair) -> Authority {
    Authority::Pool(pair)
}

/// Derives the authority over the vaults and the share mint of the pool of
/// `pair`.
pub fn derive_authority(pair: AssetPair) -> (authority: Authority)
    ensures
        authority == pool_authority(pair),
{
    Authority::Pool(pair)
}

/// One thing that an operation asks of the ledger.
#[derive(Clone, Copy, Debug, PartialEq, Eq, Structural)]
pub enum LedgerOrder {
    /// Move `amount` of `asset` from the account `from` to the account `to`.
    Transfer { asset: Identity, from: Identity, to: Identity, amount: u64, authority: Authority },
    /// Create `amount` of `asset` in the account `to`.
    Mint { asset: Identity, to: Identity, amount: u64, authority: Authority },
    /// Destroy `amount` of `asset` in the account `from`.
    Burn { asset: Identity, from: Identity, amount: u64, authority: Authority },
}

impl LedgerOrder {
    /// The amount that the order moves, creates or destroys.
    pub open spec fn amount(self) -> u64 {
        match self {
            LedgerOrder::Transfer { amount, .. } => amount,
            LedgerOrder::Mint { amount, .. } => amount,
            LedgerOrder::Burn { amount, .. } => amount,
        }
    }
}

/// The sum of the amounts of some orders.
pub open spec fn orders_total(orders: Seq<LedgerOrder>) -> int
    decreases orders.len(),
{
    if orders.len() == 0 {
        0
    } else {
        orders_total(orders.drop_last()) + orders.last().amount()
    }
}

/// What the ledger answered to an order.
#[derive(Clone, Copy, Debug, PartialEq, Eq, Structural)]
pub enum LedgerReply {
    Confirmed,
    Failed,
}

/// What an operation asks of its caller next.
#[derive(Clone, Copy, Debug, PartialEq, Eq, Structural)]
pub enum Step {
    /// Hand this order to the ledger, and call again with its reply added.
    Issue(LedgerOrder),
    /// Every order is confirmed and the state is changed: the operation is
    /// done.
    Settled,
}

/// Every reply is a confirmation.
pub open spec fn all_confirmed(replies: Seq<LedgerReply>) -> bool {
    forall|i: int| 0 <= i < replies.len() ==> replies[i] == LedgerReply::Confirmed
}

/// Where an operation stands whose orders are `orders`, after the ledger
/// has given `replies` to the first of them.
///
/// A refused order ends the operation. Otherwise the orders are issued one
/// at a time, in their order, each after the one before it is confirmed,
/// and the operation is settled with the last confirmation.
pub open spec fn next_step(orders: Seq<LedgerOrder>, replies: Seq<LedgerReply>) -> Result<Step, ErrorCode> {
    if !all_confirmed(replies) {
        Err(ErrorCode::TransferFailed)
    } else if replies.len() > orders.len() {
        Err(ErrorCode::InvalidInput)
    } else if replies.len() < orders.len() {
        Ok(Step::Issue(orders[replies.len() as int]))
    } else {
        Ok(Step::Settled)
    }
}

/// What becomes of an operation on a state `before`.
///
/// `plan` is what the operation decided: a refusal, or the state to reach
/// and the orders that go with it. The state is reached only when the
/// ledger has confirmed every order; until then, and on any failure, the
/// state stays as it was.
pub open spec fn settle<S>(
    before: S,
    plan: Result<(S, Seq<LedgerOrder>), ErrorCode>,
    replies: Seq<LedgerReply>,
) -> (Result<Step, ErrorCode>, S) {
    match plan {
        Err(e) => (Err(e), before),
        Ok((after, orders)) => match next_step(orders, replies) {
            Ok(Step::Settled) => (Ok(Step::Settled), after),
            other => (other, before),
        },
    }
}

/// Tells where an operation stands whose orders are `orders`, after the
/// ledger has given `replies`.
pub fn advance(orders: &Vec<LedgerOrder>, replies: &Vec<LedgerReply>) -> (res: Result<Step, ErrorCode>)
    ensures
        res == next_step(orders@, replies@),
{
    let mut i: usize = 0;
    while i < replies.len()
        invariant
            i <= replies.len(),
            forall|j: int| 0 <= j < i ==> replies@[j] == LedgerReply::Confirmed,
        decreases replies.len() - i,
    {
        if replies[i] == LedgerReply::Failed {
            return Err(ErrorCode::TransferFailed);
        }
        i += 1;
    }
    if replies.len() > orders.len() {
        Err(ErrorCode::InvalidInput)
    } else if replies.len() < orders.len() {
        Ok(Step::Issue(orders[replies.len()]))
    } else {
        Ok(Step::Settled)
    }
}

} // verus!
