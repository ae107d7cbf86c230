//! Account identifiers and their fixed-width byte form.

use vstd::bytes::{
    lemma_auto_spec_u128_to_from_le_bytes, spec_u128_from_le_bytes, spec_u128_to_le_bytes,
    u128_from_le_bytes, u128_to_le_bytes,
};
use vstd::prelude::*;
use vstd::slice::slice_subrange;

verus! {

/// Number of bytes in the encoded form of an [`AccountId`].
pub const ACCOUNT_ID_LEN: usize = 32;

/// Identifies a participant or the contract itself: a partition number and
/// a sequence number inside that partition. Two identifiers are equal when
/// both numbers are.
#[derive(Clone, Copy, Debug, PartialEq, Eq, Structural)]
pub struct AccountId {
    pub block: u128,
    pub tx: u128,
}

/// The 32 bytes that stand for `id`: the partition number, then the
/// sequence number, each as 16 little-endian bytes.
pub open spec fn account_bytes(id: AccountId) -> Seq<u8> {
    spec_u128_to_le_bytes(id.block) + spec_u128_to_le_bytes(id.tx)
}

/// The identifier that 32 bytes stand for; `None` for any other length.
pub open spec fn account_from_bytes(bytes: Seq<u8>) -> Option<AccountId> {
    if bytes.len() == 32 {
        Some(
            AccountId {
                block: spec_u128_from_le_bytes(bytes.subrange(0, 16)),
                tx: spec_u128_from_le_bytes(bytes.subrange(16, 32)),
            },
        )
    } else {
        None
    }
}

/// Encoding is 32 bytes long and decoding inverts it.
pub proof fn lemma_account_bytes_roundtrip(id: AccountId)
    ensures
        account_bytes(id).len() == 32,
        account_from_bytes(account_bytes(id)) == Some(id),
{
    lemma_auto_spec_u128_to_from_le_bytes();
    let b = account_bytes(id);
    assert(b.subrange(0, 16) =~= spec_u128_to_le_bytes(id.block));
    assert(b.subrange(16, 32) =~= spec_u128_to_le_bytes(id.tx));
}

/// Distinct identifiers never share an encoding.
pub proof fn lemma_account_bytes_injective(a: AccountId, b: AccountId)
    requires
        account_bytes(a) == account_bytes(b),
    ensures
        a == b,
{
    lemma_account_bytes_roundtrip(a);
    lemma_account_bytes_roundtrip(b);
}

impl AccountId {
    /// Builds an identifier from its two numbers.
    pub fn new(block: u128, tx: u128) -> (id: AccountId)
        ensures
            id == (AccountId { block, tx }),
    {
        AccountId { block, tx }
    }

    /// The 32-byte encoding of this identifier.
    pub fn to_bytes(&self) -> (bytes: Vec<u8>)
        ensures
            bytes@ == account_bytes(*self),
            bytes@.len() == 32,
    {
        let mut bytes = u128_to_le_bytes(self.block);
        let mut tail = u128_to_le_bytes(self.tx);
        bytes.append(&mut tail);
        bytes
    }

    /// Reads an identifier back from its encoding. Succeeds exactly on
    /// inputs of 32 bytes.
    pub fn from_bytes(bytes: &[u8]) -> (id: Option<AccountId>)
        ensures
            id == account_from_bytes(bytes@),
    {
        if bytes.len() != ACCOUNT_ID_LEN {
            return None;
        }
        let block = u128_from_le_bytes(slice_subrange(bytes, 0, 16));
        let tx = u128_from_le_bytes(slice_subrange(bytes, 16, 32));
        Some(AccountId { block, tx })
    }
}

} // verus!
