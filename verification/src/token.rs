//! The token: transfers, allowances and the fixed-rate exchange.

use crate::account::AccountId;
use crate::keys::amount_bytes;
use crate::laws::sum_over;
use crate::error::TokenError;
use crate::ledger::{Ledger, LedgerView};
use crate::metadata::{MetadataView, TokenMetadata};
use crate::model::{
    approve_state, initialize_result, initialize_state, moved, observed_payment, purchase_result,
    purchase_state, sale_result, sale_state, spent, transfer_from_result, transfer_from_state,
    transfer_result, transfer_state, TokenView,
};
use crate::payment::{
    decode_script, output_views, payment_to_script, transaction_outputs, TxOutput,
};
use crate::response::{
    flag_answer, flag_payload, reply, CallContext, CallResponse, ResponseView,
};
use vstd::prelude::*;
use vstd::utf8::encode_utf8;

verus! {

/// A token with balances, spending allowances and an exchange that sells
/// the owner's tokens for observed payments and takes them back.
#[derive(Debug)]
pub struct BondingCurveToken {
    ledger: Ledger,
    metadata: TokenMetadata,
}

impl View for BondingCurveToken {
    type V = TokenView;

    closed spec fn view(&self) -> TokenView {
        TokenView { ledger: self.ledger@, metadata: self.metadata@ }
    }
}

impl Default for BondingCurveToken {
    /// A token that was never initialized.
    fn default() -> (token: BondingCurveToken)
        ensures
            token.wf(),
            token@.ledger.owner.is_none(),
            forall|id: AccountId| token@.ledger.balances[id] == 0,
            forall|o: AccountId, s: AccountId| token@.ledger.allowances[(o, s)] == 0,
            token@.metadata.total_supply == 0,
    {
        BondingCurveToken::new()
    }
}

/// An outcome as mathematics sees it.
pub open spec fn outcome_view(outcome: Result<CallResponse, TokenError>) -> Result<
    ResponseView,
    TokenError,
> {
    match outcome {
        Ok(response) => Ok(response@),
        Err(error) => Err(error),
    }
}

/// Whether `outcome` is what a mutating operation owes under `ctx`: the
/// expected error, or a response that passes the incoming movements on and
/// reports the expected flag as one byte.
pub open spec fn answers(
    outcome: Result<CallResponse, TokenError>,
    ctx: CallContext,
    expected: Result<bool, TokenError>,
) -> bool {
    outcome_view(outcome) == flag_answer(ctx, expected)
}

impl BondingCurveToken {
    /// The sum of all balances.
    pub closed spec fn circulating(&self) -> nat {
        self.ledger.total_balance()
    }

    /// The token's invariant. The stored ledger is sound, the sum of all
    /// balances is the supply, and a token without an owner has issued
    /// nothing.
    pub closed spec fn wf(&self) -> bool {
        &&& self.ledger.wf()
        &&& self.ledger.total_balance() == self.metadata@.total_supply
        &&& (self.ledger.owner().is_none() ==> self.metadata@.total_supply == 0)
    }

    /// What the invariant gives: the balances add up to the supply, the
    /// supply fits in 128 bits, and a token without an owner has issued
    /// nothing.
    pub proof fn lemma_conservation(&self)
        requires
            self.wf(),
        ensures
            self.circulating() == self@.metadata.total_supply,
            self@.metadata.total_supply <= u128::MAX,
            self@.ledger.owner.is_none() ==> self@.metadata.total_supply == 0,
    {
        self.metadata.lemma_supply_fits();
    }

    /// The balances of any set of accounts add up to no more than the
    /// supply.
    pub proof fn lemma_balances_within_supply(&self, accounts: Seq<AccountId>)
        requires
            self.wf(),
            accounts.no_duplicates(),
        ensures
            sum_over(self@.ledger.balances, accounts) <= self@.metadata.total_supply,
    {
        self.ledger.lemma_sum_within_total(accounts);
    }

    /// A token that was never initialized: no owner, no balances, no
    /// allowances, no name, nothing issued.
    pub fn new() -> (token: BondingCurveToken)
        ensures
            token.wf(),
            token@.ledger.owner.is_none(),
            forall|id: AccountId| token@.ledger.balances[id] == 0,
            forall|o: AccountId, s: AccountId| token@.ledger.allowances[(o, s)] == 0,
            token@.metadata == (MetadataView {
                name: Seq::<char>::empty(),
                symbol: Seq::<char>::empty(),
                total_supply: 0,
            }),
    {
        BondingCurveToken { ledger: Ledger::new(), metadata: TokenMetadata::new() }
    }

    /// Puts a token together from a stored ledger and its metadata.
    ///
    /// `None` where the two do not belong together: where the balances do
    /// not add up to the supply, or where a supply was issued and no owner
    /// is stored.
    pub fn restore(ledger: Ledger, metadata: TokenMetadata) -> (token: Option<BondingCurveToken>)
        requires
            ledger.wf(),
        ensures
            token.is_some() == (ledger.total_balance() == metadata@.total_supply && (
            ledger@.owner.is_none() ==> metadata@.total_supply == 0)),
            token.is_some() ==> token.unwrap().wf() && token.unwrap()@ == (TokenView {
                ledger: ledger@,
                metadata: metadata@,
            }) && token.unwrap().circulating() == ledger.total_balance(),
    {
        let supply = metadata.total_supply();
        match ledger.sum_balances() {
            Some(total) => {
                if total != supply {
                    return None;
                }
            },
            None => {
                return None;
            },
        }
        if supply != 0 {
            match ledger.get_owner() {
                Ok(_) => {},
                Err(_) => {
                    return None;
                },
            }
        }
        Some(BondingCurveToken { ledger, metadata })
    }

    /// Takes the token apart into its ledger and its metadata.
    pub fn into_parts(self) -> (parts: (Ledger, TokenMetadata))
        requires
            self.wf(),
        ensures
            parts.0.wf(),
            parts.0@ == self@.ledger,
            parts.1@ == self@.metadata,
            parts.0.total_balance() == parts.1@.total_supply,
    {
        (self.ledger, self.metadata)
    }

    /// The ledger, for reading.
    pub fn ledger(&self) -> (ledger: &Ledger)
        requires
            self.wf(),
        ensures
            ledger.wf(),
            ledger@ == self@.ledger,
            ledger.total_balance() == self.circulating(),
    {
        &self.ledger
    }

    /// The metadata, for reading.
    pub fn metadata(&self) -> (metadata: &TokenMetadata)
        ensures
            metadata@ == self@.metadata,
    {
        &self.metadata
    }

    /// Debits `from` and credits `to`, in that order.
    fn move_tokens(&mut self, from: &AccountId, to: &AccountId, amount: u128)
        requires
            old(self).wf(),
            old(self)@.ledger.balances[*from] >= amount,
        ensures
            final(self).wf(),
            final(self)@ == (TokenView {
                ledger: LedgerView {
                    balances: moved(old(self)@.ledger.balances, *from, *to, amount as nat),
                    ..old(self)@.ledger
                },
                ..old(self)@
            }),
    {
        let from_balance = self.ledger.get_balance(from);
        self.ledger.set_balance(from, from_balance - amount);
        proof {
            self.ledger.lemma_balance_within_total(*to);
            self.metadata.lemma_supply_fits();
        }
        let to_balance = self.ledger.get_balance(to);
        self.ledger.set_balance(to, to_balance + amount);
        assert(self@.ledger.balances =~= moved(
            old(self)@.ledger.balances,
            *from,
            *to,
            amount as nat,
        ));
        assert(self@.ledger.allowances =~= old(self)@.ledger.allowances);
    }

    /// Takes `amount` off what `owner` granted `spender`.
    fn spend_allowance(&mut self, owner: &AccountId, spender: &AccountId, amount: u128)
        requires
            old(self).wf(),
            old(self)@.ledger.allowances[(*owner, *spender)] >= amount,
        ensures
            final(self).wf(),
            final(self)@ == (TokenView {
                ledger: LedgerView {
                    allowances: spent(old(self)@.ledger.allowances, *owner, *spender, amount as nat),
                    ..old(self)@.ledger
                },
                ..old(self)@
            }),
    {
        let current = self.ledger.get_allowance(owner, spender);
        self.ledger.set_allowance(owner, spender, current - amount);
        assert(self@.ledger.allowances =~= spent(
            old(self)@.ledger.allowances,
            *owner,
            *spender,
            amount as nat,
        ));
        assert(self@.ledger.balances =~= old(self)@.ledger.balances);
    }

    /// Names the token, makes the caller its owner and gives the caller the
    /// whole supply. The response passes the incoming movements on and
    /// carries no payload.
    ///
    /// A token is initialized once: on a token that has an owner this fails
    /// with `AlreadyInitialized` and changes nothing.
    pub fn initialize(
        &mut self,
        ctx: &CallContext,
        name: String,
        symbol: String,
        total_supply: u128,
    ) -> (outcome: Result<CallResponse, TokenError>)
        requires
            old(self).wf(),
        ensures
            final(self).wf(),
            match initialize_result(old(self)@) {
                Ok(_) => outcome.is_ok() && outcome.unwrap()@ == reply(*ctx, Seq::<u8>::empty()),
                Err(error) => outcome == Err::<CallResponse, TokenError>(error),
            },
            final(self)@ == initialize_state(
                old(self)@,
                ctx.caller,
                name@,
                symbol@,
                total_supply as nat,
            ),
    {
        match self.ledger.get_owner() {
            Ok(_) => {
                return Err(TokenError::AlreadyInitialized);
            },
            Err(_) => {},
        }
        let response = CallResponse::forward(&ctx.incoming);
        let owner = ctx.caller;
        proof {
            self.ledger.lemma_balance_within_total(owner);
        }
        self.metadata.set_name_and_symbol(name, symbol);
        self.ledger.set_owner(&owner);
        let increased = self.metadata.increase_total_supply(total_supply);
        assert(increased);
        self.ledger.set_balance(&owner, total_supply);
        assert(self@.ledger.balances =~= old(self)@.ledger.balances.insert(
            owner,
            total_supply as nat,
        ));
        assert(self@.ledger.allowances =~= old(self)@.ledger.allowances);
        Ok(response)
    }

    /// Moves `amount` from the caller to `to`.
    ///
    /// Fails with `SelfTransfer` where `to` is the caller. Answers `false`
    /// and changes nothing where the caller holds less than `amount`.
    /// Otherwise debits the caller, credits `to` and answers `true`.
    pub fn transfer(&mut self, ctx: &CallContext, to: AccountId, amount: u128) -> (outcome: Result<
        CallResponse,
        TokenError,
    >)
        requires
            old(self).wf(),
        ensures
            final(self).wf(),
            answers(
                outcome,
                *ctx,
                transfer_result(old(self)@.ledger, ctx.caller, to, amount as nat),
            ),
            final(self)@ == (TokenView {
                ledger: transfer_state(old(self)@.ledger, ctx.caller, to, amount as nat),
                ..old(self)@
            }),
    {
        let sender = ctx.caller;
        if sender == to {
            return Err(TokenError::SelfTransfer);
        }
        let sender_balance = self.ledger.get_balance(&sender);
        if sender_balance < amount {
            return Ok(CallResponse::with_flag(ctx, false));
        }
        self.move_tokens(&sender, &to, amount);
        Ok(CallResponse::with_flag(ctx, true))
    }

    /// Sets what the caller lets `spender` move to `amount`, whatever it
    /// was before, and answers `true`.
    pub fn approve(&mut self, ctx: &CallContext, spender: AccountId, amount: u128) -> (response:
        CallResponse)
        requires
            old(self).wf(),
        ensures
            final(self).wf(),
            response@ == reply(*ctx, flag_payload(true)),
            final(self)@ == (TokenView {
                ledger: approve_state(old(self)@.ledger, ctx.caller, spender, amount as nat),
                ..old(self)@
            }),
    {
        let owner = ctx.caller;
        self.ledger.set_allowance(&owner, &spender, amount);
        assert(self@.ledger.allowances =~= old(self)@.ledger.allowances.insert(
            (owner, spender),
            amount as nat,
        ));
        assert(self@.ledger.balances =~= old(self)@.ledger.balances);
        CallResponse::with_flag(ctx, true)
    }

    /// Moves `amount` from `from` to `to` on the strength of what `from`
    /// granted the caller.
    ///
    /// Fails with `SelfTransfer` where `from` is `to`. Answers `false` and
    /// changes nothing where `from` holds less than `amount` or granted the
    /// caller less. Otherwise takes `amount` off the allowance, debits
    /// `from`, credits `to` and answers `true`.
    pub fn transfer_from(
        &mut self,
        ctx: &CallContext,
        from: AccountId,
        to: AccountId,
        amount: u128,
    ) -> (outcome: Result<CallResponse, TokenError>)
        requires
            old(self).wf(),
        ensures
            final(self).wf(),
            answers(
                outcome,
                *ctx,
                transfer_from_result(old(self)@.ledger, ctx.caller, from, to, amount as nat),
            ),
            final(self)@ == (TokenView {
                ledger: transfer_from_state(
                    old(self)@.ledger,
                    ctx.caller,
                    from,
                    to,
                    amount as nat,
                ),
                ..old(self)@
            }),
    {
        let spender = ctx.caller;
        if from == to {
            return Err(TokenError::SelfTransfer);
        }
        let from_balance = self.ledger.get_balance(&from);
        if from_balance < amount {
            return Ok(CallResponse::with_flag(ctx, false));
        }
        let current_allowance = self.ledger.get_allowance(&from, &spender);
        if current_allowance < amount {
            return Ok(CallResponse::with_flag(ctx, false));
        }
        self.spend_allowance(&from, &spender, amount);
        self.move_tokens(&from, &to, amount);
        Ok(CallResponse::with_flag(ctx, true))
    }

    /// Sells the caller tokens of the owner for a payment seen in the
    /// transaction that accompanies the call, one token for each unit paid
    /// to the script that `script_hex` spells out.
    ///
    /// Answers `false` and changes nothing where there is no transaction,
    /// where its bytes do not decode or where `script_hex` is not
    /// hexadecimal. In every other case it does what [`Self::purchase`]
    /// does with the decoded outputs and the decoded script.
    pub fn buy_tokens(
        &mut self,
        ctx: &CallContext,
        tx_bytes: Option<&[u8]>,
        script_hex: &str,
        min_tokens: u128,
    ) -> (outcome: Result<CallResponse, TokenError>)
        requires
            old(self).wf(),
        ensures
            final(self).wf(),
            match observed_payment(
                match tx_bytes {
                    Some(bytes) => Some(bytes@),
                    None => None,
                },
                encode_utf8(script_hex@),
            ) {
                None => answers(outcome, *ctx, Ok(false)) && final(self)@ == old(self)@,
                Some((outputs, script)) => answers(
                    outcome,
                    *ctx,
                    purchase_result(
                        old(self)@.ledger,
                        ctx.myself,
                        outputs,
                        script,
                        min_tokens as nat,
                    ),
                ) && final(self)@ == (TokenView {
                    ledger: purchase_state(
                        old(self)@.ledger,
                        ctx.myself,
                        ctx.caller,
                        outputs,
                        script,
                        min_tokens as nat,
                    ),
                    ..old(self)@
                }),
            },
    {
        let bytes = match tx_bytes {
            Some(bytes) => bytes,
            None => {
                return Ok(CallResponse::with_flag(ctx, false));
            },
        };
        let outputs = match transaction_outputs(bytes) {
            Some(outputs) => outputs,
            None => {
                return Ok(CallResponse::with_flag(ctx, false));
            },
        };
        let script = match decode_script(script_hex) {
            Some(script) => script,
            None => {
                return Ok(CallResponse::with_flag(ctx, false));
            },
        };
        self.purchase(ctx, &outputs, script.as_slice(), min_tokens)
    }

    /// Settles a purchase against the outputs of a payment.
    ///
    /// What `outputs` pay to `script` is the number of tokens bought.
    /// Answers `false` and changes nothing where that is nothing or less
    /// than `min_tokens`. Then fails with `OwnerNotSet` on a token without
    /// an owner. Answers `false` and changes nothing where the owner holds
    /// less than was paid for or granted the contract less. Otherwise
    /// takes the amount off that allowance, debits the owner, credits the
    /// caller and answers `true`.
    pub fn purchase(
        &mut self,
        ctx: &CallContext,
        outputs: &Vec<TxOutput>,
        script: &[u8],
        min_tokens: u128,
    ) -> (outcome: Result<CallResponse, TokenError>)
        requires
            old(self).wf(),
        ensures
            final(self).wf(),
            answers(
                outcome,
                *ctx,
                purchase_result(
                    old(self)@.ledger,
                    ctx.myself,
                    output_views(outputs@),
                    script@,
                    min_tokens as nat,
                ),
            ),
            final(self)@ == (TokenView {
                ledger: purchase_state(
                    old(self)@.ledger,
                    ctx.myself,
                    ctx.caller,
                    output_views(outputs@),
                    script@,
                    min_tokens as nat,
                ),
                ..old(self)@
            }),
    {
        let buyer = ctx.caller;
        let paid = payment_to_script(outputs, script);
        if paid == 0 {
            return Ok(CallResponse::with_flag(ctx, false));
        }
        if paid < min_tokens {
            return Ok(CallResponse::with_flag(ctx, false));
        }
        let owner = match self.ledger.get_owner() {
            Ok(id) => id,
            Err(_) => {
                return Err(TokenError::OwnerNotSet);
            },
        };
        let contract = ctx.myself;
        let owner_balance = self.ledger.get_balance(&owner);
        if owner_balance < paid {
            return Ok(CallResponse::with_flag(ctx, false));
        }
        let current_allowance = self.ledger.get_allowance(&owner, &contract);
        if current_allowance < paid {
            return Ok(CallResponse::with_flag(ctx, false));
        }
        self.spend_allowance(&owner, &contract, paid);
        self.move_tokens(&owner, &buyer, paid);
        Ok(CallResponse::with_flag(ctx, true))
    }

    /// Takes `amount` tokens back from the caller for the owner.
    ///
    /// Fails with `OwnerNotSet` on a token without an owner. Answers
    /// `false` where the caller is the owner. Answers `true` and changes
    /// nothing where `amount` is zero. Answers `false` and changes nothing
    /// where the caller holds less than `amount` or granted the contract
    /// less. Otherwise takes `amount` off that allowance, debits the
    /// caller, credits the owner and answers `true`.
    pub fn sell_tokens(&mut self, ctx: &CallContext, amount: u128) -> (outcome: Result<
        CallResponse,
        TokenError,
    >)
        requires
            old(self).wf(),
        ensures
            final(self).wf(),
            answers(
                outcome,
                *ctx,
                sale_result(old(self)@.ledger, ctx.myself, ctx.caller, amount as nat),
            ),
            final(self)@ == (TokenView {
                ledger: sale_state(old(self)@.ledger, ctx.myself, ctx.caller, amount as nat),
                ..old(self)@
            }),
    {
        let seller = ctx.caller;
        let owner = match self.ledger.get_owner() {
            Ok(id) => id,
            Err(_) => {
                return Err(TokenError::OwnerNotSet);
            },
        };
        if seller == owner {
            return Ok(CallResponse::with_flag(ctx, false));
        }
        if amount == 0 {
            return Ok(CallResponse::with_flag(ctx, true));
        }
        let contract = ctx.myself;
        let seller_balance = self.ledger.get_balance(&seller);
        if seller_balance < amount {
            return Ok(CallResponse::with_flag(ctx, false));
        }
        let current_allowance = self.ledger.get_allowance(&seller, &contract);
        if current_allowance < amount {
            return Ok(CallResponse::with_flag(ctx, false));
        }
        self.spend_allowance(&seller, &contract, amount);
        self.move_tokens(&seller, &owner, amount);
        Ok(CallResponse::with_flag(ctx, true))
    }

    /// Answers what `owner` lets `spender` move, as 16 little-endian bytes.
    pub fn allowance(&self, ctx: &CallContext, owner: AccountId, spender: AccountId) -> (response:
        CallResponse)
        requires
            self.wf(),
        ensures
            self@.ledger.allowances[(owner, spender)] <= u128::MAX,
            response@ == reply(*ctx, amount_bytes(self@.ledger.allowances[(owner, spender)] as u128)),
    {
        let amount = self.ledger.get_allowance(&owner, &spender);
        CallResponse::with_amount(ctx, amount)
    }

    /// Answers the balance of `address`, as 16 little-endian bytes.
    pub fn balance_of(&self, ctx: &CallContext, address: AccountId) -> (response: CallResponse)
        requires
            self.wf(),
        ensures
            self@.ledger.balances[address] <= u128::MAX,
            response@ == reply(*ctx, amount_bytes(self@.ledger.balances[address] as u128)),
    {
        let balance = self.ledger.get_balance(&address);
        CallResponse::with_amount(ctx, balance)
    }

    /// Answers the token's name, as UTF-8.
    pub fn get_name(&self, ctx: &CallContext) -> (response: CallResponse)
        ensures
            response@ == reply(*ctx, encode_utf8(self@.metadata.name)),
    {
        let name = self.metadata.name().as_str();
        CallResponse::with_text(ctx, name)
    }

    /// Answers the token's symbol, as UTF-8.
    pub fn get_symbol(&self, ctx: &CallContext) -> (response: CallResponse)
        ensures
            response@ == reply(*ctx, encode_utf8(self@.metadata.symbol)),
    {
        let symbol = self.metadata.symbol().as_str();
        CallResponse::with_text(ctx, symbol)
    }

    /// Answers the supply, as 16 little-endian bytes.
    pub fn get_total_supply(&self, ctx: &CallContext) -> (response: CallResponse)
        ensures
            self@.metadata.total_supply <= u128::MAX,
            response@ == reply(*ctx, amount_bytes(self@.metadata.total_supply as u128)),
    {
        CallResponse::with_amount(ctx, self.metadata.total_supply())
    }
}

} // verus!
