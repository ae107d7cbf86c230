//! How accounts and amounts are laid out in the store: the keys under
//! which balances, allowances and the owner are kept, and the bytes that
//! stand for an amount.

use crate::account::{account_bytes, lemma_account_bytes_injective, lemma_account_bytes_roundtrip, AccountId};
use vstd::bytes::{
    lemma_auto_spec_u128_to_from_le_bytes, spec_u128_from_le_bytes, spec_u128_to_le_bytes,
    u128_from_le_bytes, u128_to_le_bytes,
};
use crate::store::bytes_equal;
use vstd::prelude::*;
use vstd::slice::slice_subrange;

verus! {

/// The key of the owner entry: the text `/owner`.
pub open spec fn owner_key() -> Seq<u8> {
    seq![47u8, 111u8, 119u8, 110u8, 101u8, 114u8]
}

/// What every balance key starts with: the text `/balances/`.
pub open spec fn balances_prefix() -> Seq<u8> {
    seq![47u8, 98u8, 97u8, 108u8, 97u8, 110u8, 99u8, 101u8, 115u8, 47u8]
}

/// What every allowance key starts with: the text `/allowances/`.
pub open spec fn allowances_prefix() -> Seq<u8> {
    seq![47u8, 97u8, 108u8, 108u8, 111u8, 119u8, 97u8, 110u8, 99u8, 101u8, 115u8, 47u8]
}

/// The key under which the balance of `id` is kept.
pub open spec fn balance_key(id: AccountId) -> Seq<u8> {
    balances_prefix() + account_bytes(id)
}

/// What the keys of all allowances granted by `owner` start with.
pub open spec fn allowances_prefix_for_owner(owner: AccountId) -> Seq<u8> {
    allowances_prefix() + account_bytes(owner)
}

/// The key under which the allowance that `owner` grants `spender` is kept.
pub open spec fn allowance_key(owner: AccountId, spender: AccountId) -> Seq<u8> {
    allowances_prefix_for_owner(owner) + account_bytes(spender)
}

/// Whether `key` is the balance key of some account.
pub open spec fn is_balance_key(key: Seq<u8>) -> bool {
    key.len() == 42 && key.subrange(0, 10) == balances_prefix()
}

/// The 16 little-endian bytes that stand for `amount`.
pub open spec fn amount_bytes(amount: u128) -> Seq<u8> {
    spec_u128_to_le_bytes(amount)
}

/// The amount that a stored value stands for. A missing value, or one that
/// is not 16 bytes long, stands for zero.
pub open spec fn stored_amount(value: Option<Seq<u8>>) -> u128 {
    match value {
        Some(bytes) => if bytes.len() == 16 {
            spec_u128_from_le_bytes(bytes)
        } else {
            0
        },
        None => 0,
    }
}

/// An amount is read back from its bytes.
pub proof fn lemma_amount_roundtrip(amount: u128)
    ensures
        amount_bytes(amount).len() == 16,
        stored_amount(Some(amount_bytes(amount))) == amount,
{
    lemma_auto_spec_u128_to_from_le_bytes();
}

/// The three kinds of key have three different lengths, and a balance key
/// is recognised as one.
pub proof fn lemma_key_shapes(a: AccountId, b: AccountId)
    ensures
        owner_key().len() == 6,
        balance_key(a).len() == 42,
        allowance_key(a, b).len() == 76,
        is_balance_key(balance_key(a)),
        !is_balance_key(owner_key()),
        !is_balance_key(allowance_key(a, b)),
{
    lemma_account_bytes_roundtrip(a);
    lemma_account_bytes_roundtrip(b);
    assert(balance_key(a).subrange(0, 10) =~= balances_prefix());
}

/// Two accounts have two balance keys.
pub proof fn lemma_balance_key_injective(a: AccountId, b: AccountId)
    requires
        balance_key(a) == balance_key(b),
    ensures
        a == b,
{
    lemma_account_bytes_roundtrip(a);
    lemma_account_bytes_roundtrip(b);
    assert(balance_key(a).subrange(10, 42) =~= account_bytes(a));
    assert(balance_key(b).subrange(10, 42) =~= account_bytes(b));
    lemma_account_bytes_injective(a, b);
}

/// Two (owner, spender) pairs have two allowance keys.
pub proof fn lemma_allowance_key_injective(
    o1: AccountId,
    s1: AccountId,
    o2: AccountId,
    s2: AccountId,
)
    requires
        allowance_key(o1, s1) == allowance_key(o2, s2),
    ensures
        o1 == o2,
        s1 == s2,
{
    lemma_account_bytes_roundtrip(o1);
    lemma_account_bytes_roundtrip(s1);
    lemma_account_bytes_roundtrip(o2);
    lemma_account_bytes_roundtrip(s2);
    assert(allowance_key(o1, s1).subrange(12, 44) =~= account_bytes(o1));
    assert(allowance_key(o2, s2).subrange(12, 44) =~= account_bytes(o2));
    assert(allowance_key(o1, s1).subrange(44, 76) =~= account_bytes(s1));
    assert(allowance_key(o2, s2).subrange(44, 76) =~= account_bytes(s2));
    lemma_account_bytes_injective(o1, o2);
    lemma_account_bytes_injective(s1, s2);
}

/// Builds the owner key.
pub fn owner_pointer() -> (key: Vec<u8>)
    ensures
        key@ == owner_key(),
{
    let key: Vec<u8> = vec![47u8, 111u8, 119u8, 110u8, 101u8, 114u8];
    assert(key@ =~= owner_key());
    key
}

/// Builds the balance key of `id`.
pub fn balance_pointer(id: &AccountId) -> (key: Vec<u8>)
    ensures
        key@ == balance_key(*id),
{
    let mut key: Vec<u8> = vec![47u8, 98u8, 97u8, 108u8, 97u8, 110u8, 99u8, 101u8, 115u8, 47u8];
    assert(key@ =~= balances_prefix());
    let mut tail = id.to_bytes();
    key.append(&mut tail);
    key
}

/// Builds the common start of the allowance keys of `owner`.
pub fn allowances_map_prefix_for_owner(owner: &AccountId) -> (prefix: Vec<u8>)
    ensures
        prefix@ == allowances_prefix_for_owner(*owner),
{
    let mut prefix: Vec<u8> = vec![
        47u8, 97u8, 108u8, 108u8, 111u8, 119u8, 97u8, 110u8, 99u8, 101u8, 115u8, 47u8,
    ];
    assert(prefix@ =~= allowances_prefix());
    let mut tail = owner.to_bytes();
    prefix.append(&mut tail);
    prefix
}

/// Builds the key of the allowance that `owner` grants `spender`.
pub fn allowance_pointer(owner: &AccountId, spender: &AccountId) -> (key: Vec<u8>)
    ensures
        key@ == allowance_key(*owner, *spender),
{
    let mut key = allowances_map_prefix_for_owner(owner);
    let mut tail = spender.to_bytes();
    key.append(&mut tail);
    key
}

/// Whether `key` is the balance key of some account.
pub fn is_balance_pointer(key: &[u8]) -> (yes: bool)
    ensures
        yes == is_balance_key(key@),
{
    if key.len() != 42 {
        return false;
    }
    let prefix: Vec<u8> = vec![47u8, 98u8, 97u8, 108u8, 97u8, 110u8, 99u8, 101u8, 115u8, 47u8];
    assert(prefix@ =~= balances_prefix());
    bytes_equal(slice_subrange(key, 0, 10), prefix.as_slice())
}

/// Encodes an amount for storage.
pub fn encode_amount(amount: u128) -> (bytes: Vec<u8>)
    ensures
        bytes@ == amount_bytes(amount),
{
    u128_to_le_bytes(amount)
}

/// Decodes a stored amount; zero where nothing usable is stored.
pub fn decode_amount(value: Option<&Vec<u8>>) -> (amount: u128)
    ensures
        amount == stored_amount(
            match value {
                Some(v) => Some(v@),
                None => None,
            },
        ),
{
    match value {
        Some(bytes) => {
            if bytes.len() == 16 {
                u128_from_le_bytes(bytes.as_slice())
            } else {
                0
            }
        },
        None => 0,
    }
}

} // verus!
