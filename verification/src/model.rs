//! The token as mathematics sees it, and what each operation does to it.

use crate::account::AccountId;
use crate::error::TokenError;
use crate::ledger::LedgerView;
use crate::metadata::MetadataView;
use crate::payment::{decoded_outputs, hex_bytes, is_hex, paid_to, OutputView};
use vstd::prelude::*;

verus! {

/// The whole state of a token: its ledger and its metadata.
pub struct TokenView {
    pub ledger: LedgerView,
    pub metadata: MetadataView,
}

/// The balances after `amount` has left `from` and reached `to`. The debit
/// comes first, so a move from an account to itself changes nothing.
pub open spec fn moved(
    balances: Map<AccountId, nat>,
    from: AccountId,
    to: AccountId,
    amount: nat,
) -> Map<AccountId, nat> {
    let debited = balances.insert(from, (balances[from] - amount) as nat);
    debited.insert(to, debited[to] + amount)
}

/// The allowances after `spender` has used `amount` of what `owner`
/// granted.
pub open spec fn spent(
    allowances: Map<(AccountId, AccountId), nat>,
    owner: AccountId,
    spender: AccountId,
    amount: nat,
) -> Map<(AccountId, AccountId), nat> {
    allowances.insert((owner, spender), (allowances[(owner, spender)] - amount) as nat)
}

/// Whether `spender` may move `amount` out of `from`: the balance of
/// `from` and the allowance that `from` granted `spender` both reach it.
pub open spec fn covers(ledger: LedgerView, from: AccountId, spender: AccountId, amount: nat) -> bool {
    ledger.balances[from] >= amount && ledger.allowances[(from, spender)] >= amount
}

/// The ledger after `spender` has moved `amount` from `from` to `to`.
pub open spec fn delegated_move(
    ledger: LedgerView,
    from: AccountId,
    to: AccountId,
    spender: AccountId,
    amount: nat,
) -> LedgerView {
    LedgerView {
        balances: moved(ledger.balances, from, to, amount),
        allowances: spent(ledger.allowances, from, spender, amount),
        ..ledger
    }
}

/// What `initialize` answers: a token is initialized once.
pub open spec fn initialize_result(token: TokenView) -> Result<(), TokenError> {
    if token.ledger.owner.is_some() {
        Err(TokenError::AlreadyInitialized)
    } else {
        Ok(())
    }
}

/// The token that `initialize` leaves: the caller owns it and holds the
/// whole supply.
pub open spec fn initialize_state(
    token: TokenView,
    caller: AccountId,
    name: Seq<char>,
    symbol: Seq<char>,
    total_supply: nat,
) -> TokenView {
    if token.ledger.owner.is_some() {
        token
    } else {
        TokenView {
            ledger: LedgerView {
                owner: Some(caller),
                balances: token.ledger.balances.insert(caller, total_supply),
                ..token.ledger
            },
            metadata: MetadataView {
                name,
                symbol,
                total_supply: token.metadata.total_supply + total_supply,
            },
        }
    }
}

/// What `transfer` answers.
pub open spec fn transfer_result(
    ledger: LedgerView,
    caller: AccountId,
    to: AccountId,
    amount: nat,
) -> Result<bool, TokenError> {
    if caller == to {
        Err(TokenError::SelfTransfer)
    } else {
        Ok(ledger.balances[caller] >= amount)
    }
}

/// The ledger that `transfer` leaves.
pub open spec fn transfer_state(
    ledger: LedgerView,
    caller: AccountId,
    to: AccountId,
    amount: nat,
) -> LedgerView {
    if transfer_result(ledger, caller, to, amount) == Ok::<bool, TokenError>(true) {
        LedgerView { balances: moved(ledger.balances, caller, to, amount), ..ledger }
    } else {
        ledger
    }
}

/// The ledger that `approve` leaves: the allowance is replaced.
pub open spec fn approve_state(
    ledger: LedgerView,
    caller: AccountId,
    spender: AccountId,
    amount: nat,
) -> LedgerView {
    LedgerView { allowances: ledger.allowances.insert((caller, spender), amount), ..ledger }
}

/// What `transfer_from` answers. The balance is looked at before the
/// allowance; either one short gives `false`.
pub open spec fn transfer_from_result(
    ledger: LedgerView,
    spender: AccountId,
    from: AccountId,
    to: AccountId,
    amount: nat,
) -> Result<bool, TokenError> {
    if from == to {
        Err(TokenError::SelfTransfer)
    } else {
        Ok(covers(ledger, from, spender, amount))
    }
}

/// The ledger that `transfer_from` leaves.
pub open spec fn transfer_from_state(
    ledger: LedgerView,
    spender: AccountId,
    from: AccountId,
    to: AccountId,
    amount: nat,
) -> LedgerView {
    if transfer_from_result(ledger, spender, from, to, amount) == Ok::<bool, TokenError>(true) {
        delegated_move(ledger, from, to, spender, amount)
    } else {
        ledger
    }
}

/// What a purchase answers, given the outputs of the payment and the
/// script they must pay to. One paid unit buys one token. A payment of
/// nothing, or of less than `min_tokens`, gives `false` whether or not the
/// token has an owner.
pub open spec fn purchase_result(
    ledger: LedgerView,
    myself: AccountId,
    outputs: Seq<OutputView>,
    script: Seq<u8>,
    min_tokens: nat,
) -> Result<bool, TokenError> {
    let paid = paid_to(outputs, script);
    if paid == 0 || paid < min_tokens {
        Ok(false)
    } else {
        match ledger.owner {
            None => Err(TokenError::OwnerNotSet),
            Some(owner) => Ok(covers(ledger, owner, myself, paid)),
        }
    }
}

/// The ledger that a purchase leaves: the contract moves the paid amount
/// from the owner to the buyer, out of what the owner granted it.
pub open spec fn purchase_state(
    ledger: LedgerView,
    myself: AccountId,
    buyer: AccountId,
    outputs: Seq<OutputView>,
    script: Seq<u8>,
    min_tokens: nat,
) -> LedgerView {
    if purchase_result(ledger, myself, outputs, script, min_tokens) == Ok::<bool, TokenError>(
        true,
    ) {
        delegated_move(ledger, ledger.owner.unwrap(), buyer, myself, paid_to(outputs, script))
    } else {
        ledger
    }
}

/// What was seen of a payment: the outputs of the accompanying
/// transaction and the script they must pay to. `None` where there is no
/// transaction, where its bytes do not decode, or where the script is not
/// hexadecimal.
pub open spec fn observed_payment(tx_bytes: Option<Seq<u8>>, script_hex: Seq<u8>) -> Option<
    (Seq<OutputView>, Seq<u8>),
> {
    match tx_bytes {
        None => None,
        Some(bytes) => match decoded_outputs(bytes) {
            None => None,
            Some(outputs) => if is_hex(script_hex) {
                Some((outputs, hex_bytes(script_hex)))
            } else {
                None
            },
        },
    }
}

/// What a sale answers. The owner cannot sell; selling nothing succeeds.
pub open spec fn sale_result(
    ledger: LedgerView,
    myself: AccountId,
    seller: AccountId,
    amount: nat,
) -> Result<bool, TokenError> {
    match ledger.owner {
        None => Err(TokenError::OwnerNotSet),
        Some(owner) => if seller == owner {
            Ok(false)
        } else if amount == 0 {
            Ok(true)
        } else {
            Ok(covers(ledger, seller, myself, amount))
        },
    }
}

/// The ledger that a sale leaves: the contract moves `amount` from the
/// seller to the owner, out of what the seller granted it.
pub open spec fn sale_state(
    ledger: LedgerView,
    myself: AccountId,
    seller: AccountId,
    amount: nat,
) -> LedgerView {
    if amount != 0 && sale_result(ledger, myself, seller, amount) == Ok::<bool, TokenError>(true) {
        delegated_move(ledger, seller, ledger.owner.unwrap(), myself, amount)
    } else {
        ledger
    }
}

} // verus!
