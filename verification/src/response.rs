//! What a call brings with it and what it hands back.

use crate::account::AccountId;
use crate::keys::{amount_bytes, encode_amount};
use crate::error::TokenError;
use vstd::prelude::*;
use vstd::slice::slice_to_vec;
use vstd::utf8::encode_utf8;

verus! {

/// A quantity of some token on the move.
#[derive(Clone, Copy, Debug, PartialEq, Eq, Structural)]
pub struct TokenTransfer {
    pub id: AccountId,
    pub value: u128,
}

/// The circumstances of one call: the contract's own identifier, the
/// calling account and the token movements that arrived with the call.
#[derive(Clone, Debug)]
pub struct CallContext {
    pub myself: AccountId,
    pub caller: AccountId,
    pub incoming: Vec<TokenTransfer>,
}

/// The result of one call: token movements to pass on and a payload.
#[derive(Clone, Debug)]
pub struct CallResponse {
    pub transfers: Vec<TokenTransfer>,
    pub data: Vec<u8>,
}

/// A response as mathematics sees it.
pub struct ResponseView {
    pub transfers: Seq<TokenTransfer>,
    pub data: Seq<u8>,
}

impl View for CallResponse {
    type V = ResponseView;

    open spec fn view(&self) -> ResponseView {
        ResponseView { transfers: self.transfers@, data: self.data@ }
    }
}

/// The payload that reports success or a soft failure: one byte, 1 or 0.
pub open spec fn flag_payload(ok: bool) -> Seq<u8> {
    if ok {
        seq![1u8]
    } else {
        seq![0u8]
    }
}

/// The response to a call under `ctx` with the given payload: whatever
/// arrived with the call is passed on untouched.
pub open spec fn reply(ctx: CallContext, data: Seq<u8>) -> ResponseView {
    ResponseView { transfers: ctx.incoming@, data }
}

/// What a mutating operation owes under `ctx`: the error, or the flag as
/// the payload of a response.
pub open spec fn flag_answer(ctx: CallContext, expected: Result<bool, TokenError>) -> Result<
    ResponseView,
    TokenError,
> {
    match expected {
        Ok(flag) => Ok(reply(ctx, flag_payload(flag))),
        Err(error) => Err(error),
    }
}

impl CallResponse {
    /// A response that passes `incoming` on and carries no payload.
    pub fn forward(incoming: &Vec<TokenTransfer>) -> (response: CallResponse)
        ensures
            response@ == (ResponseView { transfers: incoming@, data: Seq::<u8>::empty() }),
    {
        let mut transfers: Vec<TokenTransfer> = Vec::new();
        let mut i: usize = 0;
        while i < incoming.len()
            invariant
                i <= incoming@.len(),
                transfers@ == incoming@.subrange(0, i as int),
            decreases incoming@.len() - i,
        {
            transfers.push(incoming[i]);
            assert(transfers@ =~= incoming@.subrange(0, i + 1));
            i += 1;
        }
        assert(transfers@ =~= incoming@);
        let data: Vec<u8> = Vec::new();
        CallResponse { transfers, data }
    }

    /// The response that reports `ok` as one byte.
    pub fn with_flag(ctx: &CallContext, ok: bool) -> (response: CallResponse)
        ensures
            response@ == reply(*ctx, flag_payload(ok)),
    {
        let mut response = CallResponse::forward(&ctx.incoming);
        let data: Vec<u8> = if ok {
            vec![1u8]
        } else {
            vec![0u8]
        };
        assert(data@ =~= flag_payload(ok));
        response.data = data;
        response
    }

    /// The response that carries `amount` as 16 little-endian bytes.
    pub fn with_amount(ctx: &CallContext, amount: u128) -> (response: CallResponse)
        ensures
            response@ == reply(*ctx, amount_bytes(amount)),
    {
        let mut response = CallResponse::forward(&ctx.incoming);
        response.data = encode_amount(amount);
        response
    }

    /// The response that carries `text` as its UTF-8 bytes.
    pub fn with_text(ctx: &CallContext, text: &str) -> (response: CallResponse)
        ensures
            response@ == reply(*ctx, encode_utf8(text@)),
    {
        let mut response = CallResponse::forward(&ctx.incoming);
        response.data = slice_to_vec(text.as_bytes());
        response
    }
}

} // verus!
