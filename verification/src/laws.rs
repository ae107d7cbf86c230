//! What holds of the operations taken together.

use crate::account::AccountId;
use crate::error::TokenError;
use crate::ledger::LedgerView;
use crate::model::{
    approve_state, covers, delegated_move, initialize_state, moved, purchase_result,
    purchase_state, sale_result, sale_state, transfer_from_result, transfer_from_state,
    transfer_result, transfer_state, TokenView,
};
use crate::payment::{paid_to, OutputView};
use vstd::prelude::*;

verus! {

/// The sum of the balances of `accounts`.
pub open spec fn sum_over(balances: Map<AccountId, nat>, accounts: Seq<AccountId>) -> nat
    decreases accounts.len(),
{
    if accounts.len() == 0 {
        0
    } else {
        sum_over(balances, accounts.drop_last()) + balances[accounts.last()]
    }
}

/// One call that moves tokens between accounts.
pub enum TransferCall {
    /// `transfer` by `caller` to `to`.
    Transfer { caller: AccountId, to: AccountId, amount: nat },
    /// `transfer_from` by `spender`, from `from` to `to`.
    TransferFrom { spender: AccountId, from: AccountId, to: AccountId, amount: nat },
    /// A purchase by `buyer` through the contract `myself`, settled against
    /// `outputs`.
    Purchase {
        myself: AccountId,
        buyer: AccountId,
        outputs: Seq<OutputView>,
        script: Seq<u8>,
        min_tokens: nat,
    },
    /// A sale by `seller` through the contract `myself`.
    Sale { myself: AccountId, seller: AccountId, amount: nat },
}

/// Whether the accounts that `call` names as source or destination are
/// among `accounts`. A purchase and a sale name one; the other is the owner.
pub open spec fn among(call: TransferCall, accounts: Seq<AccountId>) -> bool {
    match call {
        TransferCall::Transfer { caller, to, .. } => accounts.contains(caller) && accounts.contains(
            to,
        ),
        TransferCall::TransferFrom { from, to, .. } => accounts.contains(from)
            && accounts.contains(to),
        TransferCall::Purchase { buyer, .. } => accounts.contains(buyer),
        TransferCall::Sale { seller, .. } => accounts.contains(seller),
    }
}

/// The ledger that `call` leaves, whatever it answers.
pub open spec fn step(ledger: LedgerView, call: TransferCall) -> LedgerView {
    match call {
        TransferCall::Transfer { caller, to, amount } => transfer_state(ledger, caller, to, amount),
        TransferCall::TransferFrom { spender, from, to, amount } => transfer_from_state(
            ledger,
            spender,
            from,
            to,
            amount,
        ),
        TransferCall::Purchase { myself, buyer, outputs, script, min_tokens } => purchase_state(
            ledger,
            myself,
            buyer,
            outputs,
            script,
            min_tokens,
        ),
        TransferCall::Sale { myself, seller, amount } => sale_state(ledger, myself, seller, amount),
    }
}

/// The ledger that a sequence of calls leaves, made one after the other.
pub open spec fn run(ledger: LedgerView, calls: Seq<TransferCall>) -> LedgerView
    decreases calls.len(),
{
    if calls.len() == 0 {
        ledger
    } else {
        step(run(ledger, calls.drop_last()), calls.last())
    }
}

/// Writing the balance of an account outside `accounts` leaves their sum.
pub proof fn lemma_sum_frame(
    balances: Map<AccountId, nat>,
    accounts: Seq<AccountId>,
    id: AccountId,
    value: nat,
)
    requires
        !accounts.contains(id),
    ensures
        sum_over(balances.insert(id, value), accounts) == sum_over(balances, accounts),
    decreases accounts.len(),
{
    if accounts.len() > 0 {
        let rest = accounts.drop_last();
        assert(accounts.last() == accounts[accounts.len() - 1]);
        assert forall|i: int| 0 <= i < rest.len() implies rest[i] != id by {
            assert(accounts[i] == rest[i]);
        }
        lemma_sum_frame(balances, rest, id, value);
    }
}

/// Writing the balance of one of `accounts` changes their sum by the
/// difference between the new balance and the old.
pub proof fn lemma_sum_write(
    balances: Map<AccountId, nat>,
    accounts: Seq<AccountId>,
    id: AccountId,
    value: nat,
)
    requires
        accounts.no_duplicates(),
        accounts.contains(id),
    ensures
        sum_over(balances.insert(id, value), accounts) == sum_over(balances, accounts)
            - balances[id] + value,
    decreases accounts.len(),
{
    let rest = accounts.drop_last();
    let last = accounts[accounts.len() - 1];
    assert(accounts.last() == last);
    if last == id {
        assert forall|i: int| 0 <= i < rest.len() implies rest[i] != id by {
            assert(accounts[i] == rest[i]);
        }
        lemma_sum_frame(balances, rest, id, value);
    } else {
        let i = choose|i: int| 0 <= i < accounts.len() && accounts[i] == id;
        assert(rest[i] == id);
        assert forall|a: int, b: int| 0 <= a < rest.len() && 0 <= b < rest.len() && a
            != b implies rest[a] != rest[b] by {
            assert(accounts[a] == rest[a] && accounts[b] == rest[b]);
        }
        lemma_sum_write(balances, rest, id, value);
    }
}

/// A move between two of `accounts` leaves their sum: what one loses the
/// other gains.
pub proof fn lemma_move_conserves(
    balances: Map<AccountId, nat>,
    from: AccountId,
    to: AccountId,
    amount: nat,
    accounts: Seq<AccountId>,
)
    requires
        accounts.no_duplicates(),
        accounts.contains(from),
        accounts.contains(to),
        balances[from] >= amount,
    ensures
        sum_over(moved(balances, from, to, amount), accounts) == sum_over(balances, accounts),
{
    let debited = balances.insert(from, (balances[from] - amount) as nat);
    lemma_sum_write(balances, accounts, from, (balances[from] - amount) as nat);
    lemma_sum_write(debited, accounts, to, debited[to] + amount);
}

/// One call among `accounts`, the owner being one of them, leaves the sum
/// of their balances and the owner, whether it moves tokens, answers
/// `false` or fails.
pub proof fn law_step_conserves(ledger: LedgerView, call: TransferCall, accounts: Seq<AccountId>)
    requires
        accounts.no_duplicates(),
        among(call, accounts),
        ledger.owner.is_some() ==> accounts.contains(ledger.owner.unwrap()),
    ensures
        sum_over(step(ledger, call).balances, accounts) == sum_over(ledger.balances, accounts),
        step(ledger, call).owner == ledger.owner,
{
    match call {
        TransferCall::Purchase { myself, buyer, outputs, script, min_tokens } => {
            law_purchase_conserves(ledger, myself, buyer, outputs, script, min_tokens, accounts);
        },
        TransferCall::Sale { myself, seller, amount } => {
            law_sale_conserves(ledger, myself, seller, amount, accounts);
        },
        TransferCall::Transfer { caller, to, amount } => {
            if transfer_result(ledger, caller, to, amount) == Ok::<bool, TokenError>(true) {
                lemma_move_conserves(ledger.balances, caller, to, amount, accounts);
            }
        },
        TransferCall::TransferFrom { spender, from, to, amount } => {
            if transfer_from_result(ledger, spender, from, to, amount) == Ok::<bool, TokenError>(
                true,
            ) {
                lemma_move_conserves(ledger.balances, from, to, amount, accounts);
            }
        },
    }
}

/// Conservation: whatever sequence of transfers, purchases and sales is
/// made among a fixed set of accounts, the owner being one of them, the
/// sum of their balances stays what it was, and so does the owner.
pub proof fn law_transfers_conserve(
    ledger: LedgerView,
    calls: Seq<TransferCall>,
    accounts: Seq<AccountId>,
)
    requires
        accounts.no_duplicates(),
        forall|i: int| 0 <= i < calls.len() ==> among(#[trigger] calls[i], accounts),
        ledger.owner.is_some() ==> accounts.contains(ledger.owner.unwrap()),
    ensures
        sum_over(run(ledger, calls).balances, accounts) == sum_over(ledger.balances, accounts),
        run(ledger, calls).owner == ledger.owner,
    decreases calls.len(),
{
    if calls.len() > 0 {
        let earlier = calls.drop_last();
        assert forall|i: int| 0 <= i < earlier.len() implies among(
            #[trigger] earlier[i],
            accounts,
        ) by {
            assert(earlier[i] == calls[i]);
        }
        law_transfers_conserve(ledger, earlier, accounts);
        assert(among(calls[calls.len() - 1], accounts));
        law_step_conserves(run(ledger, earlier), calls.last(), accounts);
    }
}

/// Where every balance is zero, so is every sum.
pub proof fn lemma_sum_of_nothing(balances: Map<AccountId, nat>, accounts: Seq<AccountId>)
    requires
        forall|id: AccountId| balances[id] == 0,
    ensures
        sum_over(balances, accounts) == 0,
    decreases accounts.len(),
{
    if accounts.len() > 0 {
        lemma_sum_of_nothing(balances, accounts.drop_last());
    }
}

/// After a fresh token is initialized, and after any sequence of
/// transfers, purchases and sales among a fixed set of accounts that holds
/// the owner, the balances of those accounts add up to the supply set at
/// initialization.
pub proof fn law_supply_conserved(
    fresh: TokenView,
    owner: AccountId,
    name: Seq<char>,
    symbol: Seq<char>,
    total_supply: nat,
    calls: Seq<TransferCall>,
    accounts: Seq<AccountId>,
)
    requires
        fresh.ledger.owner.is_none(),
        forall|id: AccountId| fresh.ledger.balances[id] == 0,
        accounts.no_duplicates(),
        accounts.contains(owner),
        forall|i: int| 0 <= i < calls.len() ==> among(#[trigger] calls[i], accounts),
    ensures
        sum_over(
            run(initialize_state(fresh, owner, name, symbol, total_supply).ledger, calls).balances,
            accounts,
        ) == total_supply,
{
    let started = initialize_state(fresh, owner, name, symbol, total_supply).ledger;
    lemma_sum_of_nothing(fresh.ledger.balances, accounts);
    lemma_sum_write(fresh.ledger.balances, accounts, owner, total_supply);
    law_transfers_conserve(started, calls, accounts);
}

/// A purchase conserves as a transfer does: over any set of accounts that
/// holds the buyer and the owner, the sum of the balances stays.
pub proof fn law_purchase_conserves(
    ledger: LedgerView,
    myself: AccountId,
    buyer: AccountId,
    outputs: Seq<OutputView>,
    script: Seq<u8>,
    min_tokens: nat,
    accounts: Seq<AccountId>,
)
    requires
        accounts.no_duplicates(),
        accounts.contains(buyer),
        ledger.owner.is_some() ==> accounts.contains(ledger.owner.unwrap()),
    ensures
        sum_over(
            purchase_state(ledger, myself, buyer, outputs, script, min_tokens).balances,
            accounts,
        ) == sum_over(ledger.balances, accounts),
{
    if purchase_state(ledger, myself, buyer, outputs, script, min_tokens) != ledger {
        lemma_move_conserves(
            ledger.balances,
            ledger.owner.unwrap(),
            buyer,
            paid_to(outputs, script),
            accounts,
        );
    }
}

/// A sale conserves as a transfer does: over any set of accounts that
/// holds the seller and the owner, the sum of the balances stays.
pub proof fn law_sale_conserves(
    ledger: LedgerView,
    myself: AccountId,
    seller: AccountId,
    amount: nat,
    accounts: Seq<AccountId>,
)
    requires
        accounts.no_duplicates(),
        accounts.contains(seller),
        ledger.owner.is_some() ==> accounts.contains(ledger.owner.unwrap()),
    ensures
        sum_over(sale_state(ledger, myself, seller, amount).balances, accounts) == sum_over(
            ledger.balances,
            accounts,
        ),
{
    if sale_state(ledger, myself, seller, amount) != ledger {
        lemma_move_conserves(ledger.balances, seller, ledger.owner.unwrap(), amount, accounts);
    }
}

/// A transfer from an account to itself fails with `SelfTransfer` and
/// changes nothing, whatever the balance, the allowance and the amount.
pub proof fn law_self_transfer_fails(
    ledger: LedgerView,
    account: AccountId,
    spender: AccountId,
    amount: nat,
)
    ensures
        transfer_result(ledger, account, account, amount) == Err::<bool, TokenError>(
            TokenError::SelfTransfer,
        ),
        transfer_state(ledger, account, account, amount) == ledger,
        transfer_from_result(ledger, spender, account, account, amount) == Err::<bool, TokenError>(
            TokenError::SelfTransfer,
        ),
        transfer_from_state(ledger, spender, account, account, amount) == ledger,
{
}

/// Approving twice leaves the second amount, not the sum: the second
/// approval alone would have left the same ledger.
pub proof fn law_approve_replaces(
    ledger: LedgerView,
    owner: AccountId,
    spender: AccountId,
    first: nat,
    second: nat,
)
    ensures
        approve_state(approve_state(ledger, owner, spender, first), owner, spender, second)
            == approve_state(ledger, owner, spender, second),
        approve_state(
            approve_state(ledger, owner, spender, first),
            owner,
            spender,
            second,
        ).allowances[(owner, spender)] == second,
{
    let once = approve_state(ledger, owner, spender, first);
    let twice = approve_state(once, owner, spender, second);
    let direct = approve_state(ledger, owner, spender, second);
    assert(twice.allowances =~= direct.allowances);
}

/// An approval touches one allowance: every other pair, every balance and
/// the owner stay.
pub proof fn law_approve_is_local(
    ledger: LedgerView,
    owner: AccountId,
    spender: AccountId,
    amount: nat,
    other_owner: AccountId,
    other_spender: AccountId,
)
    requires
        other_owner != owner || other_spender != spender,
    ensures
        approve_state(ledger, owner, spender, amount).allowances[(other_owner, other_spender)]
            == ledger.allowances[(other_owner, other_spender)],
        approve_state(ledger, owner, spender, amount).balances == ledger.balances,
        approve_state(ledger, owner, spender, amount).owner == ledger.owner,
{
}

/// A `transfer_from` that is turned down for want of balance or of
/// allowance answers `false` and leaves every balance and every allowance.
pub proof fn law_rejected_transfer_from_is_inert(
    ledger: LedgerView,
    spender: AccountId,
    from: AccountId,
    to: AccountId,
    amount: nat,
)
    requires
        from != to,
        ledger.balances[from] < amount || ledger.allowances[(from, spender)] < amount,
    ensures
        transfer_from_result(ledger, spender, from, to, amount) == Ok::<bool, TokenError>(false),
        transfer_from_state(ledger, spender, from, to, amount) == ledger,
{
}

/// All or nothing: a call that fails, and a call that answers `false`,
/// leave the ledger exactly as it was.
pub proof fn law_refusals_change_nothing(ledger: LedgerView, call: TransferCall)
    requires
        match call {
            TransferCall::Transfer { caller, to, amount } => transfer_result(
                ledger,
                caller,
                to,
                amount,
            ) != Ok::<bool, TokenError>(true),
            TransferCall::TransferFrom { spender, from, to, amount } => transfer_from_result(
                ledger,
                spender,
                from,
                to,
                amount,
            ) != Ok::<bool, TokenError>(true),
            TransferCall::Purchase { myself, buyer, outputs, script, min_tokens } => purchase_result(
                ledger,
                myself,
                outputs,
                script,
                min_tokens,
            ) != Ok::<bool, TokenError>(true),
            TransferCall::Sale { myself, seller, amount } => sale_result(
                ledger,
                myself,
                seller,
                amount,
            ) != Ok::<bool, TokenError>(true),
        },
    ensures
        step(ledger, call) == ledger,
{
}

/// Selling nothing changes nothing; and where the token has an owner and
/// the seller is another account, it answers `true`.
pub proof fn law_selling_nothing(ledger: LedgerView, myself: AccountId, seller: AccountId)
    ensures
        sale_state(ledger, myself, seller, 0) == ledger,
        ledger.owner.is_some() && ledger.owner != Some(seller) ==> sale_result(
            ledger,
            myself,
            seller,
            0,
        ) == Ok::<bool, TokenError>(true),
{
}

/// No operation on the ledger reassigns an owner once set: transfers,
/// approvals, purchases and sales leave the owner as it is.
pub proof fn law_owner_stays(
    ledger: LedgerView,
    a: AccountId,
    b: AccountId,
    c: AccountId,
    amount: nat,
    outputs: Seq<OutputView>,
    script: Seq<u8>,
)
    ensures
        transfer_state(ledger, a, b, amount).owner == ledger.owner,
        transfer_from_state(ledger, a, b, c, amount).owner == ledger.owner,
        approve_state(ledger, a, b, amount).owner == ledger.owner,
        purchase_state(ledger, a, b, outputs, script, amount).owner == ledger.owner,
        sale_state(ledger, a, b, amount).owner == ledger.owner,
{
}

/// A move that the ledger covers takes exactly `amount` off the allowance
/// and off the source, and adds it to the destination.
pub proof fn law_delegated_move_amounts(
    ledger: LedgerView,
    from: AccountId,
    to: AccountId,
    spender: AccountId,
    amount: nat,
)
    requires
        from != to,
        covers(ledger, from, spender, amount),
    ensures
        delegated_move(ledger, from, to, spender, amount).balances[from] == ledger.balances[from]
            - amount,
        delegated_move(ledger, from, to, spender, amount).balances[to] == ledger.balances[to]
            + amount,
        delegated_move(ledger, from, to, spender, amount).allowances[(from, spender)]
            == ledger.allowances[(from, spender)] - amount,
{
}

} // verus!
