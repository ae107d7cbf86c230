//! The operations a call can ask for, and the one entry point that
//! carries them out.

use crate::account::AccountId;
use crate::keys::amount_bytes;
use crate::error::TokenError;
use crate::model::{
    approve_state, initialize_result, initialize_state, observed_payment, purchase_result,
    purchase_state, sale_result, sale_state, transfer_from_result, transfer_from_state,
    transfer_result, transfer_state, TokenView,
};
use crate::response::{flag_answer, flag_payload, reply, CallContext, CallResponse, ResponseView};
use crate::token::{outcome_view, BondingCurveToken};
use vstd::prelude::*;
use vstd::utf8::encode_utf8;

verus! {

/// An operation with its arguments.
#[derive(Debug)]
pub enum Operation {
    Initialize { name: String, symbol: String, total_supply: u128 },
    GetName,
    GetSymbol,
    GetTotalSupply,
    BalanceOf { address: AccountId },
    Transfer { to: AccountId, amount: u128 },
    Approve { spender: AccountId, amount: u128 },
    Allowance { owner: AccountId, spender: AccountId },
    TransferFrom { from: AccountId, to: AccountId, amount: u128 },
    BuyTokens { script_hex: String, min_tokens: u128 },
    SellTokens { amount: u128 },
}

/// The code by which a call names an operation.
pub open spec fn opcode_of(op: Operation) -> u128 {
    match op {
        Operation::Initialize { .. } => 0,
        Operation::GetName => 99,
        Operation::GetSymbol => 100,
        Operation::GetTotalSupply => 101,
        Operation::BalanceOf { .. } => 102,
        Operation::Transfer { .. } => 103,
        Operation::Approve { .. } => 104,
        Operation::Allowance { .. } => 105,
        Operation::TransferFrom { .. } => 106,
        Operation::BuyTokens { .. } => 107,
        Operation::SellTokens { .. } => 108,
    }
}

/// What `op` answers on `token` under `ctx`, `tx` being the bytes of the
/// transaction that accompanies the call, if there is one.
pub open spec fn expected_answer(
    token: TokenView,
    ctx: CallContext,
    tx: Option<Seq<u8>>,
    op: Operation,
) -> Result<ResponseView, TokenError> {
    match op {
        Operation::Initialize { .. } => match initialize_result(token) {
            Ok(_) => Ok(reply(ctx, Seq::<u8>::empty())),
            Err(error) => Err(error),
        },
        Operation::GetName => Ok(reply(ctx, encode_utf8(token.metadata.name))),
        Operation::GetSymbol => Ok(reply(ctx, encode_utf8(token.metadata.symbol))),
        Operation::GetTotalSupply => Ok(
            reply(ctx, amount_bytes(token.metadata.total_supply as u128)),
        ),
        Operation::BalanceOf { address } => Ok(
            reply(ctx, amount_bytes(token.ledger.balances[address] as u128)),
        ),
        Operation::Transfer { to, amount } => flag_answer(
            ctx,
            transfer_result(token.ledger, ctx.caller, to, amount as nat),
        ),
        Operation::Approve { .. } => Ok(reply(ctx, flag_payload(true))),
        Operation::Allowance { owner, spender } => Ok(
            reply(ctx, amount_bytes(token.ledger.allowances[(owner, spender)] as u128)),
        ),
        Operation::TransferFrom { from, to, amount } => flag_answer(
            ctx,
            transfer_from_result(token.ledger, ctx.caller, from, to, amount as nat),
        ),
        Operation::BuyTokens { script_hex, min_tokens } => match observed_payment(
            tx,
            encode_utf8(script_hex@),
        ) {
            None => Ok(reply(ctx, flag_payload(false))),
            Some((outputs, script)) => flag_answer(
                ctx,
                purchase_result(token.ledger, ctx.myself, outputs, script, min_tokens as nat),
            ),
        },
        Operation::SellTokens { amount } => flag_answer(
            ctx,
            sale_result(token.ledger, ctx.myself, ctx.caller, amount as nat),
        ),
    }
}

/// The token that `op` leaves. The queries leave it as it was.
pub open spec fn expected_state(
    token: TokenView,
    ctx: CallContext,
    tx: Option<Seq<u8>>,
    op: Operation,
) -> TokenView {
    match op {
        Operation::Initialize { name, symbol, total_supply } => initialize_state(
            token,
            ctx.caller,
            name@,
            symbol@,
            total_supply as nat,
        ),
        Operation::Transfer { to, amount } => TokenView {
            ledger: transfer_state(token.ledger, ctx.caller, to, amount as nat),
            ..token
        },
        Operation::Approve { spender, amount } => TokenView {
            ledger: approve_state(token.ledger, ctx.caller, spender, amount as nat),
            ..token
        },
        Operation::TransferFrom { from, to, amount } => TokenView {
            ledger: transfer_from_state(token.ledger, ctx.caller, from, to, amount as nat),
            ..token
        },
        Operation::BuyTokens { script_hex, min_tokens } => match observed_payment(
            tx,
            encode_utf8(script_hex@),
        ) {
            None => token,
            Some((outputs, script)) => TokenView {
                ledger: purchase_state(
                    token.ledger,
                    ctx.myself,
                    ctx.caller,
                    outputs,
                    script,
                    min_tokens as nat,
                ),
                ..token
            },
        },
        Operation::SellTokens { amount } => TokenView {
            ledger: sale_state(token.ledger, ctx.myself, ctx.caller, amount as nat),
            ..token
        },
        _ => token,
    }
}

impl Operation {
    /// The code by which a call names this operation.
    pub fn opcode(&self) -> (code: u128)
        ensures
            code == opcode_of(*self),
    {
        match self {
            Operation::Initialize { .. } => 0,
            Operation::GetName => 99,
            Operation::GetSymbol => 100,
            Operation::GetTotalSupply => 101,
            Operation::BalanceOf { .. } => 102,
            Operation::Transfer { .. } => 103,
            Operation::Approve { .. } => 104,
            Operation::Allowance { .. } => 105,
            Operation::TransferFrom { .. } => 106,
            Operation::BuyTokens { .. } => 107,
            Operation::SellTokens { .. } => 108,
        }
    }
}

impl BondingCurveToken {
    /// Carries out `op` under `ctx`. `tx_bytes` are the bytes of the
    /// transaction that accompanies the call, where one could be had; only
    /// a purchase looks at them.
    pub fn dispatch(&mut self, ctx: &CallContext, tx_bytes: Option<&[u8]>, op: Operation) -> (outcome:
        Result<CallResponse, TokenError>)
        requires
            old(self).wf(),
        ensures
            final(self).wf(),
            outcome_view(outcome) == expected_answer(
                old(self)@,
                *ctx,
                match tx_bytes {
                    Some(bytes) => Some(bytes@),
                    None => None,
                },
                op,
            ),
            final(self)@ == expected_state(
                old(self)@,
                *ctx,
                match tx_bytes {
                    Some(bytes) => Some(bytes@),
                    None => None,
                },
                op,
            ),
    {
        match op {
            Operation::Initialize { name, symbol, total_supply } => self.initialize(
                ctx,
                name,
                symbol,
                total_supply,
            ),
            Operation::GetName => Ok(self.get_name(ctx)),
            Operation::GetSymbol => Ok(self.get_symbol(ctx)),
            Operation::GetTotalSupply => Ok(self.get_total_supply(ctx)),
            Operation::BalanceOf { address } => Ok(self.balance_of(ctx, address)),
            Operation::Transfer { to, amount } => self.transfer(ctx, to, amount),
            Operation::Approve { spender, amount } => Ok(self.approve(ctx, spender, amount)),
            Operation::Allowance { owner, spender } => Ok(self.allowance(ctx, owner, spender)),
            Operation::TransferFrom { from, to, amount } => self.transfer_from(
                ctx,
                from,
                to,
                amount,
            ),
            Operation::BuyTokens { script_hex, min_tokens } => self.buy_tokens(
                ctx,
                tx_bytes,
                script_hex.as_str(),
                min_tokens,
            ),
            Operation::SellTokens { amount } => self.sell_tokens(ctx, amount),
        }
    }
}

} // verus!
