use crate::error::ErrorCode;
use crate::identity::Identity;
use crate::ledger::advance;
use crate::ledger::orders_total;
use crate::ledger::settle;
use crate::ledger::Authority;
use crate::ledger::LedgerOrder;
use crate::ledger::LedgerReply;
use crate::ledger::Step;
use vstd::prelude::*;

verus! {

/// A sale of a fixed allocation of tokens, open for a window of time or
/// until its target is raised.
#[derive(Clone, Copy, Debug, PartialEq, Eq, Structural)]
pub struct Launch {
    pub token_mint: Identity,
    pub launcher: Identity,
    pub target_amount: u64,
    pub current_amount: u64,
    pub token_amount: u64,
    pub duration: u64,
    pub launch_time: u64,
    pub is_finalized: bool,
    pub is_closed: bool,
}

/// What one participant has put into a sale, in all.
#[derive(Clone, Copy, Debug, PartialEq, Eq, Structural)]
pub struct Contribution {
    pub participant: Identity,
    pub amount: u64,
}

/// The sum of the contributions in a book.
pub open spec fn total_raised(book: Seq<Contribution>) -> int
    decreases book.len(),
{
    if book.len() == 0 {
        0
    } else {
        total_raised(book.drop_last()) + book.last().amount
    }
}

/// Whether `index` is where `participant` stands in `book`: the place of
/// the first entry in that name, or the end of the book if there is none.
pub open spec fn is_place_of(book: Seq<Contribution>, participant: Identity, index: int) -> bool {
    &&& 0 <= index <= book.len()
    &&& index < book.len() ==> book[index].participant == participant
    &&& forall|j: int| 0 <= j < index ==> book[j].participant != participant
}

/// Where `participant` stands in `book`.
pub open spec fn place_of(book: Seq<Contribution>, participant: Identity) -> int {
    choose|index: int| is_place_of(book, participant, index)
}

/// The book with `amount` more to the name of `participant`: added to the
/// entry in that name, or entered at the end where there is none.
pub open spec fn book_with(book: Seq<Contribution>, participant: Identity, amount: u64) -> Seq<Contribution> {
    let place = place_of(book, participant);
    if place < book.len() {
        book.update(place, Contribution { participant, amount: (book[place].amount + amount) as u64 })
    } else {
        book.push(Contribution { participant, amount })
    }
}

impl Launch {
    /// No more is raised than the target, and the sale is not both
    /// finalized and closed.
    pub open spec fn wf(self) -> bool {
        &&& self.current_amount <= self.target_amount
        &&& !(self.is_finalized && self.is_closed)
    }

    /// The sale is neither finalized nor closed.
    pub open spec fn is_open(self) -> bool {
        !self.is_finalized && !self.is_closed
    }

    /// The time at which the window ends.
    pub open spec fn deadline(self) -> int {
        self.launch_time + self.duration
    }

    /// `book` accounts for all that the sale has raised.
    pub open spec fn funded_by(self, book: Seq<Contribution>) -> bool {
        self.current_amount == total_raised(book)
    }

    /// Tells whether the sale is neither finalized nor closed.
    pub fn open(&self) -> (res: bool)
        ensures
            res == self.is_open(),
    {
        !self.is_finalized && !self.is_closed
    }

    /// Tells whether the window has ended at `now`.
    pub fn expired(&self, now: u64) -> (res: bool)
        ensures
            res == (now >= self.deadline()),
    {
        now as u128 >= self.launch_time as u128 + self.duration as u128
    }

    /// Tells whether `book` accounts for all that the sale has raised.
    pub fn is_funded_by(&self, book: &Vec<Contribution>) -> (res: bool)
        ensures
            res == self.funded_by(book@),
    {
        let mut sum: u64 = 0;
        let mut i: usize = 0;
        while i < book.len()
            invariant
                i <= book@.len(),
                sum == total_raised(book@.subrange(0, i as int)),
                sum <= self.current_amount,
            decreases book@.len() - i,
        {
            proof {
                assert(book@.subrange(0, i + 1).drop_last() =~= book@.subrange(0, i as int));
                lemma_total_of_part(book@, i + 1);
            }
            if book[i].amount > self.current_amount - sum {
                return false;
            }
            sum = sum + book[i].amount;
            i += 1;
        }
        proof {
            assert(book@.subrange(0, i as int) =~= book@);
        }
        sum == self.current_amount
    }
}

/// The first entries of a book sum to no more than the whole book, and no
/// entry is more than the sum.
pub proof fn lemma_total_of_part(book: Seq<Contribution>, len: int)
    requires
        0 <= len <= book.len(),
    ensures
        0 <= total_raised(book.subrange(0, len)) <= total_raised(book),
        forall|i: int| 0 <= i < book.len() ==> (#[trigger] book[i]).amount <= total_raised(book),
    decreases book.len(),
{
    if book.len() == 0 {
        assert(book.subrange(0, len) =~= book);
    } else {
        let rest = book.drop_last();
        if len == book.len() {
            assert(book.subrange(0, len) =~= book);
            lemma_total_of_part(rest, rest.len() as int);
        } else {
            assert(book.subrange(0, len) =~= rest.subrange(0, len));
            lemma_total_of_part(rest, len);
        }
        assert forall|i: int| 0 <= i < book.len() implies (#[trigger] book[i]).amount <= total_raised(book) by {
            if i < rest.len() {
                assert(book[i] == rest[i]);
            }
        }
    }
}

/// Every participant has one place in a book, and `place_of` is it.
pub proof fn lemma_place_of(book: Seq<Contribution>, participant: Identity)
    ensures
        is_place_of(book, participant, place_of(book, participant)),
        forall|index: int|
            is_place_of(book, participant, index) ==> index == place_of(book, participant),
    decreases book.len(),
{
    if book.len() == 0 {
        assert(is_place_of(book, participant, 0));
    } else {
        let rest = book.drop_last();
        lemma_place_of(rest, participant);
        let place = place_of(rest, participant);
        assert forall|j: int| 0 <= j < place implies book[j].participant != participant by {
            assert(rest[j] == book[j]);
        }
        if place < rest.len() {
            assert(rest[place] == book[place]);
            assert(is_place_of(book, participant, place));
        } else if book.last().participant == participant {
            assert(is_place_of(book, participant, rest.len() as int));
        } else {
            assert(is_place_of(book, participant, book.len() as int));
        }
    }
}

proof fn lemma_total_after_update(book: Seq<Contribution>, index: int, entry: Contribution)
    requires
        0 <= index < book.len(),
    ensures
        total_raised(book.update(index, entry)) == total_raised(book) - book[index].amount + entry.amount,
    decreases book.len(),
{
    let after = book.update(index, entry);
    if index == book.len() - 1 {
        assert(after.drop_last() =~= book.drop_last());
    } else {
        assert(after.drop_last() =~= book.drop_last().update(index, entry));
        lemma_total_after_update(book.drop_last(), index, entry);
    }
}

/// A book with `amount` more to one name holds `amount` more in all,
/// where the name's entry has room for it.
pub proof fn lemma_book_with_total(book: Seq<Contribution>, participant: Identity, amount: u64)
    requires
        total_raised(book) + amount <= u64::MAX,
    ensures
        total_raised(book_with(book, participant, amount)) == total_raised(book) + amount,
{
    lemma_place_of(book, participant);
    lemma_total_of_part(book, 0);
    let place = place_of(book, participant);
    if place < book.len() {
        lemma_total_after_update(
            book,
            place,
            Contribution { participant, amount: (book[place].amount + amount) as u64 },
        );
    } else {
        assert(book.push(Contribution { participant, amount }).drop_last() =~= book);
    }
}

/// The accounts named when a sale is launched.
#[derive(Clone, Copy, Debug, PartialEq, Eq, Structural)]
pub struct LaunchToken {
    pub token_mint: Identity,
    pub launcher: Identity,
}

/// Launches a sale of `token_amount` tokens of `accounts.token_mint`, with
/// a target of `target_amount`, open from `now` for `duration` seconds. Its
/// book of contributions starts empty.
pub fn launch_token(accounts: &LaunchToken, target_amount: u64, token_amount: u64, duration: u64, now: u64) -> (launch:
    Launch)
    ensures
        launch == (Launch {
            token_mint: accounts.token_mint,
            launcher: accounts.launcher,
            target_amount,
            current_amount: 0,
            token_amount,
            duration,
            launch_time: now,
            is_finalized: false,
            is_closed: false,
        }),
        launch.wf(),
        launch.is_open(),
        launch.funded_by(Seq::<Contribution>::empty()),
{
    Launch {
        token_mint: accounts.token_mint,
        launcher: accounts.launcher,
        target_amount,
        current_amount: 0,
        token_amount,
        duration,
        launch_time: now,
        is_finalized: false,
        is_closed: false,
    }
}

/// The accounts named in a contribution: who contributes, in which asset,
/// and the escrow that holds the sale's takings.
#[derive(Clone, Copy, Debug, PartialEq, Eq, Structural)]
pub struct ParticipateInLaunch {
    pub participant: Identity,
    pub payment_mint: Identity,
    pub escrow: Identity,
}

/// What a contribution decides: why it is refused, or the sale and the
/// book that it leads to and the one order that goes with it.
///
/// A sale takes contributions while it is open and its window has not
/// ended, and never more than its target in all. The contribution is
/// entered in the book to the participant's name.
pub open spec fn participate_plan(
    launch: Launch,
    book: Seq<Contribution>,
    accounts: ParticipateInLaunch,
    amount: u64,
    now: u64,
) -> Result<((Launch, Seq<Contribution>), Seq<LedgerOrder>), ErrorCode> {
    if !launch.is_open() {
        Err(ErrorCode::LaunchClosed)
    } else if now >= launch.deadline() {
        Err(ErrorCode::LaunchExpired)
    } else if launch.current_amount + amount > launch.target_amount {
        Err(ErrorCode::TargetExceeded)
    } else {
        Ok(
            (
                (
                    Launch { current_amount: (launch.current_amount + amount) as u64, ..launch },
                    book_with(book, accounts.participant, amount),
                ),
                seq![
                    LedgerOrder::Transfer {
                        asset: accounts.payment_mint,
                        from: accounts.participant,
                        to: accounts.escrow,
                        amount,
                        authority: Authority::Account(accounts.participant),
                    },
                ],
            ),
        )
    }
}

fn find_place(book: &Vec<Contribution>, participant: &Identity) -> (place: usize)
    ensures
        place == place_of(book@, *participant),
        place <= book@.len(),
{
    let mut place: usize = 0;
    while place < book.len()
        invariant
            place <= book@.len(),
            forall|j: int| 0 <= j < place ==> book@[j].participant != *participant,
        decreases book@.len() - place,
    {
        if book[place].participant == *participant {
            proof {
                assert(is_place_of(book@, *participant, place as int));
                lemma_place_of(book@, *participant);
            }
            return place;
        }
        place += 1;
    }
    proof {
        assert(is_place_of(book@, *participant, place as int));
        lemma_place_of(book@, *participant);
    }
    place
}

/// Takes a contribution of `amount` one step further, at the time `now`.
///
/// `replies` holds what the ledger has answered so far to the order of
/// this contribution, and the other arguments stay the same from call to
/// call. The amount raised grows, and the contribution is entered in the
/// book, when the transfer into escrow is confirmed, and at no other time.
pub fn participate_in_launch(
    launch: &mut Launch,
    book: &mut Vec<Contribution>,
    accounts: &ParticipateInLaunch,
    amount: u64,
    now: u64,
    replies: &Vec<LedgerReply>,
) -> (res: Result<Step, ErrorCode>)
    requires
        old(launch).funded_by(old(book)@),
    ensures
        (res, (*final(launch), final(book)@)) == settle(
            (*old(launch), old(book)@),
            participate_plan(*old(launch), old(book)@, *accounts, amount, now),
            replies@,
        ),
        res != Ok::<Step, ErrorCode>(Step::Settled) ==> *final(launch) == *old(launch) && final(book)@ == old(
            book,
        )@,
        final(launch).funded_by(final(book)@),
        old(launch).wf() ==> final(launch).wf(),
        final(launch).is_finalized == old(launch).is_finalized,
        final(launch).is_closed == old(launch).is_closed,
        final(launch).current_amount >= old(launch).current_amount,
{
    if !launch.open() {
        return Err(ErrorCode::LaunchClosed);
    }
    if launch.expired(now) {
        return Err(ErrorCode::LaunchExpired);
    }
    let raised = match launch.current_amount.checked_add(amount) {
        Some(sum) => sum,
        None => {
            return Err(ErrorCode::TargetExceeded);
        },
    };
    if raised > launch.target_amount {
        return Err(ErrorCode::TargetExceeded);
    }
    let mut orders: Vec<LedgerOrder> = Vec::new();
    orders.push(
        LedgerOrder::Transfer {
            asset: accounts.payment_mint,
            from: accounts.participant,
            to: accounts.escrow,
            amount,
            authority: Authority::Account(accounts.participant),
        },
    );
    proof {
        assert(orders@ =~= seq![
            LedgerOrder::Transfer {
                asset: accounts.payment_mint,
                from: accounts.participant,
                to: accounts.escrow,
                amount,
                authority: Authority::Account(accounts.participant),
            },
        ]);
    }
    let step = advance(&orders, replies);
    if let Ok(Step::Settled) = step {
        let place = find_place(book, &accounts.participant);
        proof {
            lemma_total_of_part(book@, 0);
            lemma_book_with_total(book@, accounts.participant, amount);
        }
        if place < book.len() {
            let entry = Contribution { participant: accounts.participant, amount: book[place].amount + amount };
            book.set(place, entry);
        } else {
            book.push(Contribution { participant: accounts.participant, amount });
        }
        launch.current_amount = raised;
    }
    step
}

/// What finalizing does to a sale: why it is refused, or the sale
/// finalized.
///
/// An open sale can be finalized once its target is raised or its window
/// has ended, and not before.
pub open spec fn finalize_result(launch: Launch, now: u64) -> Result<Launch, ErrorCode> {
    if !launch.is_open() {
        Err(ErrorCode::LaunchClosed)
    } else if launch.current_amount < launch.target_amount && now < launch.deadline() {
        Err(ErrorCode::InvalidInput)
    } else {
        Ok(Launch { is_finalized: true, ..launch })
    }
}

/// The tokens that a contribution earns: the same part of `token_amount`
/// as `contribution` is of `raised`, rounded down.
pub open spec fn allocation(contribution: int, raised: int, token_amount: int) -> int {
    contribution * token_amount / raised
}

/// The tokens that a contribution of `amount` earns in a sale: its part of
/// the allocation, and nothing where nothing was raised.
pub open spec fn entry_allocation(launch: Launch, amount: u64) -> u64 {
    if launch.current_amount == 0 {
        0
    } else {
        allocation(amount as int, launch.current_amount as int, launch.token_amount as int) as u64
    }
}

/// The accounts named when a sale is finalized: the vault that holds the
/// tokens on sale.
#[derive(Clone, Copy, Debug, PartialEq, Eq, Structural)]
pub struct FinalizeTokenLaunch {
    pub token_vault: Identity,
}

/// The orders of a finalization: to each participant in the book the
/// tokens earned, from the vault, on the sale's own authority.
pub open spec fn allocation_orders(launch: Launch, book: Seq<Contribution>, accounts: FinalizeTokenLaunch) -> Seq<
    LedgerOrder,
> {
    Seq::new(
        book.len(),
        |i: int|
            LedgerOrder::Transfer {
                asset: launch.token_mint,
                from: accounts.token_vault,
                to: book[i].participant,
                amount: entry_allocation(launch, book[i].amount),
                authority: Authority::Launch(launch.token_mint),
            },
    )
}

/// What a finalization decides: why it is refused, or the sale finalized
/// and the orders that go with it.
pub open spec fn finalize_plan(launch: Launch, book: Seq<Contribution>, accounts: FinalizeTokenLaunch, now: u64) -> Result<
    (Launch, Seq<LedgerOrder>),
    ErrorCode,
> {
    match finalize_result(launch, now) {
        Err(e) => Err(e),
        Ok(after) => Ok((after, allocation_orders(launch, book, accounts))),
    }
}

/// A contribution earns no more than the whole allocation.
pub proof fn lemma_allocation_bounds(contribution: int, raised: int, token_amount: int)
    by (nonlinear_arith)
    requires
        0 <= contribution <= raised,
        0 < raised,
        0 <= token_amount,
    ensures
        0 <= contribution * token_amount <= raised * token_amount,
        0 <= allocation(contribution, raised, token_amount) <= token_amount,
        allocation(contribution, raised, token_amount) * raised <= contribution * token_amount,
{
}

/// Quotes the tokens that a contribution of `contribution` earns in this
/// sale. There is no answer where nothing was raised, nor for a
/// contribution larger than all that was raised.
pub fn token_allocation(launch: &Launch, contribution: u64) -> (res: Result<u64, ErrorCode>)
    ensures
        launch.current_amount == 0 || contribution > launch.current_amount ==> res == Err::<u64, ErrorCode>(
            ErrorCode::InvalidInput,
        ),
        0 < launch.current_amount && contribution <= launch.current_amount ==> (res matches Ok(tokens)
            && tokens == allocation(
            contribution as int,
            launch.current_amount as int,
            launch.token_amount as int,
        ) && tokens == entry_allocation(*launch, contribution)),
{
    if launch.current_amount == 0 || contribution > launch.current_amount {
        return Err(ErrorCode::InvalidInput);
    }
    proof {
        lemma_allocation_bounds(contribution as int, launch.current_amount as int, launch.token_amount as int);
        assert(launch.current_amount * launch.token_amount <= u128::MAX) by (nonlinear_arith)
            requires
                launch.current_amount <= u64::MAX,
                launch.token_amount <= u64::MAX,
        ;
    }
    let tokens: u128 = (contribution as u128) * (launch.token_amount as u128) / (launch.current_amount as u128);
    Ok(tokens as u64)
}

/// Takes the finalization of a sale one step further, at the time `now`.
///
/// `replies` holds what the ledger has answered so far to the orders of
/// this finalization, and the other arguments stay the same from call to
/// call. The sale is finalized when every participant in the book has the
/// tokens earned, and at no other time.
pub fn finalize_token_launch(
    launch: &mut Launch,
    book: &Vec<Contribution>,
    accounts: &FinalizeTokenLaunch,
    now: u64,
    replies: &Vec<LedgerReply>,
) -> (res: Result<Step, ErrorCode>)
    requires
        old(launch).funded_by(book@),
    ensures
        (res, *final(launch)) == settle(*old(launch), finalize_plan(*old(launch), book@, *accounts, now), replies@),
        res != Ok::<Step, ErrorCode>(Step::Settled) ==> *final(launch) == *old(launch),
        final(launch).funded_by(book@),
        old(launch).wf() ==> final(launch).wf(),
        old(launch).is_finalized ==> final(launch).is_finalized,
        final(launch).is_closed == old(launch).is_closed,
{
    if !launch.open() {
        return Err(ErrorCode::LaunchClosed);
    }
    if launch.current_amount < launch.target_amount && !launch.expired(now) {
        return Err(ErrorCode::InvalidInput);
    }
    let mut orders: Vec<LedgerOrder> = Vec::new();
    let mut i: usize = 0;
    while i < book.len()
        invariant
            i <= book@.len(),
            launch.funded_by(book@),
            orders@ =~= allocation_orders(*launch, book@, *accounts).subrange(0, i as int),
        decreases book@.len() - i,
    {
        proof {
            lemma_total_of_part(book@, 0);
        }
        let tokens = match token_allocation(launch, book[i].amount) {
            Ok(tokens) => tokens,
            Err(_) => 0,
        };
        orders.push(
            LedgerOrder::Transfer {
                asset: launch.token_mint,
                from: accounts.token_vault,
                to: book[i].participant,
                amount: tokens,
                authority: Authority::Launch(launch.token_mint),
            },
        );
        i += 1;
    }
    proof {
        assert(orders@ =~= allocation_orders(*launch, book@, *accounts));
    }
    let step = advance(&orders, replies);
    if let Ok(Step::Settled) = step {
        launch.is_finalized = true;
    }
    step
}

/// The accounts named when a sale is closed: who asks for it, the asset
/// that was contributed, and the escrow that holds it.
#[derive(Clone, Copy, Debug, PartialEq, Eq, Structural)]
pub struct CloseTokenLaunch {
    pub caller: Identity,
    pub payment_mint: Identity,
    pub escrow: Identity,
}

/// What closing does to a sale: why it is refused, or the sale closed.
///
/// Anyone can close an open sale that has raised nothing; one that has
/// raised something is closed by its launcher alone.
pub open spec fn close_result(launch: Launch, accounts: CloseTokenLaunch) -> Result<Launch, ErrorCode> {
    if !launch.is_open() {
        Err(ErrorCode::LaunchClosed)
    } else if launch.current_amount > 0 && accounts.caller != launch.launcher {
        Err(ErrorCode::Unauthorized)
    } else {
        Ok(Launch { is_closed: true, ..launch })
    }
}

/// The orders of a closing: to each participant in the book what was
/// contributed, out of escrow, on the sale's own authority.
pub open spec fn refund_orders(launch: Launch, book: Seq<Contribution>, accounts: CloseTokenLaunch) -> Seq<
    LedgerOrder,
> {
    Seq::new(
        book.len(),
        |i: int|
            LedgerOrder::Transfer {
                asset: accounts.payment_mint,
                from: accounts.escrow,
                to: book[i].participant,
                amount: book[i].amount,
                authority: Authority::Launch(launch.token_mint),
            },
    )
}

/// What a closing decides: why it is refused, or the sale closed and the
/// orders that go with it.
pub open spec fn close_plan(launch: Launch, book: Seq<Contribution>, accounts: CloseTokenLaunch) -> Result<
    (Launch, Seq<LedgerOrder>),
    ErrorCode,
> {
    match close_result(launch, accounts) {
        Err(e) => Err(e),
        Ok(after) => Ok((after, refund_orders(launch, book, accounts))),
    }
}

/// Takes the closing of a sale one step further.
///
/// `replies` holds what the ledger has answered so far to the orders of
/// this closing, and the other arguments stay the same from call to call.
/// The sale is closed when every participant in the book has the
/// contribution back, and at no other time.
pub fn close_token_launch(
    launch: &mut Launch,
    book: &Vec<Contribution>,
    accounts: &CloseTokenLaunch,
    replies: &Vec<LedgerReply>,
) -> (res: Result<Step, ErrorCode>)
    ensures
        (res, *final(launch)) == settle(*old(launch), close_plan(*old(launch), book@, *accounts), replies@),
        res != Ok::<Step, ErrorCode>(Step::Settled) ==> *final(launch) == *old(launch),
        old(launch).funded_by(book@) ==> final(launch).funded_by(book@),
        old(launch).wf() ==> final(launch).wf(),
        old(launch).is_closed ==> final(launch).is_closed,
        final(launch).is_finalized == old(launch).is_finalized,
{
    if !launch.open() {
        return Err(ErrorCode::LaunchClosed);
    }
    if launch.current_amount > 0 && accounts.caller != launch.launcher {
        return Err(ErrorCode::Unauthorized);
    }
    let mut orders: Vec<LedgerOrder> = Vec::new();
    let mut i: usize = 0;
    while i < book.len()
        invariant
            i <= book@.len(),
            orders@ =~= refund_orders(*launch, book@, *accounts).subrange(0, i as int),
        decreases book@.len() - i,
    {
        orders.push(
            LedgerOrder::Transfer {
                asset: accounts.payment_mint,
                from: accounts.escrow,
                to: book[i].participant,
                amount: book[i].amount,
                authority: Authority::Launch(launch.token_mint),
            },
        );
        i += 1;
    }
    proof {
        assert(orders@ =~= refund_orders(*launch, book@, *accounts));
    }
    let step = advance(&orders, replies);
    if let Ok(Step::Settled) = step {
        launch.is_closed = true;
    }
    step
}

/// A sale ends once, and in one way.
///
/// Whatever finalizing or closing leads to is a sale that is finalized or
/// closed and not both, and on which every later attempt to finalize, to
/// close or to contribute is refused as `LaunchClosed`, whoever makes it,
/// whenever, and whatever the ledger has answered.
pub proof fn lemma_launch_ends_once(
    launch: Launch,
    now: u64,
    closer: CloseTokenLaunch,
    later: u64,
    book: Seq<Contribution>,
    later_finalizer: FinalizeTokenLaunch,
    later_closer: CloseTokenLaunch,
    participant: ParticipateInLaunch,
    amount: u64,
    replies: Seq<LedgerReply>,
)
    requires
        launch.wf(),
    ensures
        finalize_result(launch, now) matches Ok(done) ==> {
            &&& done.is_finalized && !done.is_closed
            &&& settle(done, finalize_plan(done, book, later_finalizer, later), replies) == (
                Err::<Step, ErrorCode>(ErrorCode::LaunchClosed),
                done,
            )
            &&& settle(done, close_plan(done, book, later_closer), replies) == (
                Err::<Step, ErrorCode>(ErrorCode::LaunchClosed),
                done,
            )
            &&& settle((done, book), participate_plan(done, book, participant, amount, later), replies) == (
                Err::<Step, ErrorCode>(ErrorCode::LaunchClosed),
                (done, book),
            )
        },
        close_result(launch, closer) matches Ok(done) ==> {
            &&& done.is_closed && !done.is_finalized
            &&& settle(done, finalize_plan(done, book, later_finalizer, later), replies) == (
                Err::<Step, ErrorCode>(ErrorCode::LaunchClosed),
                done,
            )
            &&& settle(done, close_plan(done, book, later_closer), replies) == (
                Err::<Step, ErrorCode>(ErrorCode::LaunchClosed),
                done,
            )
            &&& settle((done, book), participate_plan(done, book, participant, amount, later), replies) == (
                Err::<Step, ErrorCode>(ErrorCode::LaunchClosed),
                (done, book),
            )
        },
{
}

/// A closing returns all that was contributed: the refunds add up to the
/// sum of the book, which is what the sale has raised.
pub proof fn lemma_refunds_return_all(launch: Launch, book: Seq<Contribution>, accounts: CloseTokenLaunch)
    ensures
        orders_total(refund_orders(launch, book, accounts)) == total_raised(book),
        launch.funded_by(book) ==> orders_total(refund_orders(launch, book, accounts)) == launch.current_amount,
    decreases book.len(),
{
    if book.len() > 0 {
        let rest = book.drop_last();
        lemma_refunds_return_all(launch, rest, accounts);
        assert(refund_orders(launch, book, accounts).drop_last() =~= refund_orders(launch, rest, accounts));
    }
}

proof fn lemma_allocations_weighed(launch: Launch, book: Seq<Contribution>, accounts: FinalizeTokenLaunch)
    requires
        launch.current_amount > 0,
        forall|i: int| 0 <= i < book.len() ==> (#[trigger] book[i]).amount <= launch.current_amount,
    ensures
        0 <= orders_total(allocation_orders(launch, book, accounts)),
        orders_total(allocation_orders(launch, book, accounts)) * launch.current_amount <= total_raised(book)
            * launch.token_amount,
    decreases book.len(),
{
    if book.len() > 0 {
        let rest = book.drop_last();
        assert forall|i: int| 0 <= i < rest.len() implies (#[trigger] rest[i]).amount
            <= launch.current_amount by {
            assert(rest[i] == book[i]);
        }
        lemma_allocations_weighed(launch, rest, accounts);
        assert(allocation_orders(launch, book, accounts).drop_last() =~= allocation_orders(
            launch,
            rest,
            accounts,
        ));
        let last = book.last().amount;
        assert(book[book.len() - 1].amount <= launch.current_amount);
        lemma_allocation_bounds(last as int, launch.current_amount as int, launch.token_amount as int);
        let before = orders_total(allocation_orders(launch, rest, accounts));
        let tokens = allocation(last as int, launch.current_amount as int, launch.token_amount as int);
        assert(allocation_orders(launch, book, accounts).last().amount() == tokens);
        assert((before + tokens) * launch.current_amount <= (total_raised(rest) + last) * launch.token_amount)
            by (nonlinear_arith)
            requires
                before * launch.current_amount <= total_raised(rest) * launch.token_amount,
                tokens * launch.current_amount <= last * launch.token_amount,
        ;
    }
}

/// A finalization hands out no more than the allocation: the tokens that
/// the participants of a sale earn add up to `token_amount` at most.
pub proof fn lemma_allocations_within(launch: Launch, book: Seq<Contribution>, accounts: FinalizeTokenLaunch)
    requires
        launch.funded_by(book),
    ensures
        0 <= orders_total(allocation_orders(launch, book, accounts)) <= launch.token_amount,
{
    lemma_total_of_part(book, 0);
    if launch.current_amount > 0 {
        lemma_allocations_weighed(launch, book, accounts);
        let handed = orders_total(allocation_orders(launch, book, accounts));
        assert(handed <= launch.token_amount) by (nonlinear_arith)
            requires
                launch.current_amount > 0,
                handed * launch.current_amount <= launch.current_amount * launch.token_amount,
        ;
    } else {
        lemma_nothing_allocated(launch, book, accounts);
    }
}

proof fn lemma_nothing_allocated(launch: Launch, book: Seq<Contribution>, accounts: FinalizeTokenLaunch)
    requires
        launch.current_amount == 0,
    ensures
        orders_total(allocation_orders(launch, book, accounts)) == 0,
    decreases book.len(),
{
    if book.len() > 0 {
        lemma_nothing_allocated(launch, book.drop_last(), accounts);
        assert(allocation_orders(launch, book, accounts).drop_last() =~= allocation_orders(
            launch,
            book.drop_last(),
            accounts,
        ));
    }
}

} // verus!
