//! The balance table, the allowance table and the owner registry, kept in
//! a byte store under composed keys.

use crate::account::{account_bytes, account_from_bytes, lemma_account_bytes_roundtrip, AccountId};
use crate::error::TokenError;
use crate::keys::{
    allowance_key, allowance_pointer, amount_bytes, balance_key, balance_pointer, decode_amount,
    encode_amount, is_balance_key, is_balance_pointer, lemma_allowance_key_injective, lemma_amount_roundtrip,
    lemma_balance_key_injective, lemma_key_shapes, owner_key, owner_pointer, stored_amount,
};
use crate::laws::{lemma_sum_frame, lemma_sum_of_nothing, lemma_sum_write, sum_over};
use crate::store::{
    distinct_keys, lemma_position_unique, lookup, position, written, LedgerStore, Record,
};
use vstd::prelude::*;

verus! {

/// What one record adds to the sum of all balances: its amount if it is a
/// balance entry, nothing otherwise.
pub open spec fn record_amount(record: Record) -> nat {
    if is_balance_key(record.0) {
        stored_amount(Some(record.1)) as nat
    } else {
        0
    }
}

/// The sum of all balances held in `records`.
pub open spec fn total_of(records: Seq<Record>) -> nat
    decreases records.len(),
{
    if records.len() == 0 {
        0
    } else {
        total_of(records.drop_last()) + record_amount(records.last())
    }
}

/// No single entry exceeds the sum.
pub proof fn lemma_total_bounds_record(records: Seq<Record>, i: int)
    requires
        0 <= i < records.len(),
    ensures
        record_amount(records[i]) <= total_of(records),
    decreases records.len(),
{
    if i < records.len() - 1 {
        lemma_total_bounds_record(records.drop_last(), i);
    }
}

/// Replacing one entry changes the sum by the difference of the two.
pub proof fn lemma_total_update(records: Seq<Record>, i: int, record: Record)
    requires
        0 <= i < records.len(),
    ensures
        total_of(records.update(i, record)) == total_of(records) - record_amount(records[i])
            + record_amount(record),
    decreases records.len(),
{
    let after = records.update(i, record);
    if i == records.len() - 1 {
        assert(after.drop_last() =~= records.drop_last());
    } else {
        assert(after.drop_last() =~= records.drop_last().update(i, record));
        lemma_total_update(records.drop_last(), i, record);
    }
}

/// The sum over the first entries never exceeds the sum over all.
pub proof fn lemma_total_prefix(records: Seq<Record>, n: int)
    requires
        0 <= n <= records.len(),
    ensures
        total_of(records.subrange(0, n)) <= total_of(records),
    decreases records.len(),
{
    if n == records.len() {
        assert(records.subrange(0, n) =~= records);
    } else {
        assert(records.drop_last().subrange(0, n) =~= records.subrange(0, n));
        lemma_total_prefix(records.drop_last(), n);
    }
}

/// What a write does to the sum of all balances: the entry's old amount
/// leaves, its new amount enters.
pub proof fn lemma_total_written(records: Seq<Record>, key: Seq<u8>, value: Seq<u8>)
    ensures
        total_of(written(records, key, value)) == total_of(records) - (match lookup(records, key) {
            Some(old_value) => record_amount((key, old_value)),
            None => 0,
        }) + record_amount((key, value)),
{
    match position(records, key) {
        Some(i) => {
            lemma_total_update(records, i, (key, value));
            assert(records[i] == (key, records[i].1));
        },
        None => {
            assert(records.push((key, value)).drop_last() =~= records);
        },
    }
}

/// The balances that `records` hold, account by account.
pub open spec fn balances_of(records: Seq<Record>) -> Map<AccountId, nat> {
    Map::total(|id: AccountId| stored_amount(lookup(records, balance_key(id))) as nat)
}

/// The balances of any set of accounts add up to no more than the sum of
/// all balance entries.
pub proof fn lemma_sum_within_total_of(records: Seq<Record>, accounts: Seq<AccountId>)
    requires
        distinct_keys(records),
        accounts.no_duplicates(),
    ensures
        sum_over(balances_of(records), accounts) <= total_of(records),
    decreases records.len(),
{
    if records.len() == 0 {
        assert forall|id: AccountId| balances_of(records)[id] == 0 by {
            assert(position(records, balance_key(id)).is_none());
        }
        lemma_sum_of_nothing(balances_of(records), accounts);
    } else {
        let rest = records.drop_last();
        let last = records.last();
        let n = records.len() - 1;
        assert forall|i: int, j: int| 0 <= i < j < rest.len() implies (#[trigger] rest[i]).0 != (
        #[trigger] rest[j]).0 by {
            assert(records[i].0 != records[j].0);
        }
        lemma_sum_within_total_of(rest, accounts);
        lemma_position_unique(records, last.0, n);
        assert(position(rest, last.0).is_none()) by {
            if position(rest, last.0).is_some() {
                let i = position(rest, last.0).unwrap();
                assert(records[i].0 != records[n].0);
            }
        }
        assert forall|key: Seq<u8>| key != last.0 implies lookup(records, key) == lookup(
            rest,
            key,
        ) by {
            if position(rest, key).is_some() {
                let i = position(rest, key).unwrap();
                assert(records[i] == rest[i]);
                lemma_position_unique(records, key, i);
            } else if position(records, key).is_some() {
                let i = position(records, key).unwrap();
                assert(rest[i] == records[i]);
            }
        }
        if exists|id: AccountId| balance_key(id) == last.0 {
            let id = choose|id: AccountId| balance_key(id) == last.0;
            lemma_key_shapes(id, id);
            let amount = stored_amount(Some(last.1)) as nat;
            assert(balances_of(records) =~= balances_of(rest).insert(id, amount)) by {
                assert forall|other: AccountId| other != id implies balance_key(other)
                    != last.0 by {
                    if balance_key(other) == last.0 {
                        lemma_balance_key_injective(other, id);
                    }
                }
            }
            assert(balances_of(rest)[id] == 0);
            if accounts.contains(id) {
                lemma_sum_write(balances_of(rest), accounts, id, amount);
            } else {
                lemma_sum_frame(balances_of(rest), accounts, id, amount);
            }
        } else {
            assert(balances_of(records) =~= balances_of(rest));
        }
    }
}

/// The balance and allowance tables and the owner registry.
#[derive(Debug)]
pub struct Ledger {
    store: LedgerStore,
}

/// The ledger as mathematics sees it.
pub struct LedgerView {
    /// The owner, once set.
    pub owner: Option<AccountId>,
    /// The balance of every account; zero where none was ever written.
    pub balances: Map<AccountId, nat>,
    /// The allowance of every (owner, spender) pair; zero where none was
    /// ever written.
    pub allowances: Map<(AccountId, AccountId), nat>,
}

impl View for Ledger {
    type V = LedgerView;

    open spec fn view(&self) -> LedgerView {
        LedgerView {
            owner: self.owner(),
            balances: Map::total(|id: AccountId| self.balance(id) as nat),
            allowances: Map::total(
                |pair: (AccountId, AccountId)| self.allowance(pair.0, pair.1) as nat,
            ),
        }
    }
}

impl Ledger {
    /// The stored records.
    pub closed spec fn records(&self) -> Seq<Record> {
        self.store@
    }

    /// The ledger's invariant: no key is stored twice.
    pub open spec fn wf(&self) -> bool {
        distinct_keys(self.records())
    }

    /// The balance of `id`.
    pub open spec fn balance(&self, id: AccountId) -> u128 {
        stored_amount(lookup(self.records(), balance_key(id)))
    }

    /// What `owner` lets `spender` move.
    pub open spec fn allowance(&self, owner: AccountId, spender: AccountId) -> u128 {
        stored_amount(lookup(self.records(), allowance_key(owner, spender)))
    }

    /// The owner, if one is stored.
    pub open spec fn owner(&self) -> Option<AccountId> {
        match lookup(self.records(), owner_key()) {
            Some(bytes) => account_from_bytes(bytes),
            None => None,
        }
    }

    /// The sum of all balances.
    pub open spec fn total_balance(&self) -> nat {
        total_of(self.records())
    }

    /// A ledger with no owner, no balance and no allowance.
    pub fn new() -> (ledger: Ledger)
        ensures
            ledger.wf(),
            ledger.records() == Seq::<Record>::empty(),
            ledger.owner().is_none(),
            ledger.total_balance() == 0,
            forall|id: AccountId| ledger.balance(id) == 0,
            forall|o: AccountId, s: AccountId| ledger.allowance(o, s) == 0,
    {
        Ledger { store: LedgerStore::new() }
    }

    /// The ledger kept in `store`.
    pub fn from_store(store: LedgerStore) -> (ledger: Ledger)
        requires
            store.wf(),
        ensures
            ledger.wf(),
            ledger.records() == store@,
    {
        Ledger { store }
    }

    /// Hands the store back.
    pub fn into_store(self) -> (store: LedgerStore)
        requires
            self.wf(),
        ensures
            store.wf(),
            store@ == self.records(),
    {
        self.store
    }

    /// Adds up all balances. `None` where the sum does not fit in 128 bits.
    pub fn sum_balances(&self) -> (sum: Option<u128>)
        requires
            self.wf(),
        ensures
            match sum {
                Some(total) => total == self.total_balance(),
                None => self.total_balance() > u128::MAX,
            },
    {
        let ghost records = self.records();
        let mut total: u128 = 0;
        let mut i: usize = 0;
        while i < self.store.len()
            invariant
                records == self.store@,
                i <= records.len(),
                total == total_of(records.subrange(0, i as int)),
            decreases records.len() - i,
        {
            proof {
                let next = records.subrange(0, i + 1);
                assert(next.drop_last() =~= records.subrange(0, i as int));
                assert(next.last() == records[i as int]);
                lemma_total_prefix(records, i + 1);
            }
            if is_balance_pointer(self.store.key_at(i).as_slice()) {
                let amount = decode_amount(Some(self.store.value_at(i)));
                match total.checked_add(amount) {
                    Some(next_total) => {
                        total = next_total;
                    },
                    None => {
                        return None;
                    },
                }
            }
            i += 1;
        }
        assert(records.subrange(0, i as int) =~= records);
        Some(total)
    }

    /// The owner. Fails with `NotInitialized` when none is stored.
    pub fn get_owner(&self) -> (owner: Result<AccountId, TokenError>)
        requires
            self.wf(),
        ensures
            owner == match self.owner() {
                Some(id) => Ok::<AccountId, TokenError>(id),
                None => Err::<AccountId, TokenError>(TokenError::NotInitialized),
            },
    {
        let key = owner_pointer();
        match self.store.get(key.as_slice()) {
            Some(bytes) => match AccountId::from_bytes(bytes.as_slice()) {
                Some(id) => Ok(id),
                None => Err(TokenError::NotInitialized),
            },
            None => Err(TokenError::NotInitialized),
        }
    }

    /// Stores `id` as the owner. Balances and allowances stay.
    pub fn set_owner(&mut self, id: &AccountId)
        requires
            old(self).wf(),
        ensures
            final(self).wf(),
            final(self).owner() == Some(*id),
            final(self).total_balance() == old(self).total_balance(),
            forall|a: AccountId| #[trigger] final(self).balance(a) == old(self).balance(a),
            forall|o: AccountId, s: AccountId| #[trigger]
                final(self).allowance(o, s) == old(self).allowance(o, s),
    {
        let ghost before = self.records();
        let value = id.to_bytes();
        self.store.set(owner_pointer(), value);
        proof {
            lemma_account_bytes_roundtrip(*id);
            lemma_total_written(before, owner_key(), account_bytes(*id));
            assert forall|a: AccountId| #[trigger] self.balance(a) == old(self).balance(a) by {
                lemma_key_shapes(a, a);
            }
            assert forall|o: AccountId, s: AccountId| #[trigger]
                self.allowance(o, s) == old(self).allowance(o, s) by {
                lemma_key_shapes(o, s);
            }
            lemma_key_shapes(*id, *id);
        }
    }

    /// The balance of `id`; zero if none was written.
    pub fn get_balance(&self, id: &AccountId) -> (amount: u128)
        requires
            self.wf(),
        ensures
            amount == self.balance(*id),
    {
        let key = balance_pointer(id);
        decode_amount(self.store.get(key.as_slice()))
    }

    /// Sets the balance of `id` to `amount`. Other balances, all
    /// allowances and the owner stay.
    pub fn set_balance(&mut self, id: &AccountId, amount: u128)
        requires
            old(self).wf(),
        ensures
            final(self).wf(),
            final(self).balance(*id) == amount,
            forall|a: AccountId| a != *id ==> #[trigger] final(self).balance(a) == old(self).balance(a),
            forall|o: AccountId, s: AccountId| #[trigger]
                final(self).allowance(o, s) == old(self).allowance(o, s),
            final(self).owner() == old(self).owner(),
            final(self).total_balance() == old(self).total_balance() - old(self).balance(*id)
                + amount,
    {
        let ghost before = self.records();
        self.store.set(balance_pointer(id), encode_amount(amount));
        proof {
            lemma_amount_roundtrip(amount);
            lemma_key_shapes(*id, *id);
            lemma_total_written(before, balance_key(*id), amount_bytes(amount));
            assert forall|a: AccountId| a != *id implies #[trigger] self.balance(a) == old(
                self,
            ).balance(a) by {
                if balance_key(a) == balance_key(*id) {
                    lemma_balance_key_injective(a, *id);
                }
            }
            assert forall|o: AccountId, s: AccountId| #[trigger]
                self.allowance(o, s) == old(self).allowance(o, s) by {
                lemma_key_shapes(o, s);
            }
        }
    }

    /// What `owner` lets `spender` move; zero if nothing was written.
    pub fn get_allowance(&self, owner: &AccountId, spender: &AccountId) -> (amount: u128)
        requires
            self.wf(),
        ensures
            amount == self.allowance(*owner, *spender),
    {
        let key = allowance_pointer(owner, spender);
        decode_amount(self.store.get(key.as_slice()))
    }

    /// Sets what `owner` lets `spender` move to `amount`. Other
    /// allowances, all balances and the owner stay.
    pub fn set_allowance(&mut self, owner: &AccountId, spender: &AccountId, amount: u128)
        requires
            old(self).wf(),
        ensures
            final(self).wf(),
            final(self).allowance(*owner, *spender) == amount,
            forall|o: AccountId, s: AccountId|
                (o != *owner || s != *spender) ==> #[trigger] final(self).allowance(o, s) == old(
                    self,
                ).allowance(o, s),
            forall|a: AccountId| #[trigger] final(self).balance(a) == old(self).balance(a),
            final(self).owner() == old(self).owner(),
            final(self).total_balance() == old(self).total_balance(),
    {
        let ghost before = self.records();
        self.store.set(allowance_pointer(owner, spender), encode_amount(amount));
        proof {
            lemma_amount_roundtrip(amount);
            lemma_key_shapes(*owner, *spender);
            lemma_total_written(before, allowance_key(*owner, *spender), amount_bytes(amount));
            assert forall|o: AccountId, s: AccountId|
                (o != *owner || s != *spender) implies #[trigger] self.allowance(o, s) == old(
                self,
            ).allowance(o, s) by {
                if allowance_key(o, s) == allowance_key(*owner, *spender) {
                    lemma_allowance_key_injective(o, s, *owner, *spender);
                }
            }
            assert forall|a: AccountId| #[trigger] self.balance(a) == old(self).balance(a) by {
                lemma_key_shapes(a, *spender);
            }
        }
    }

    /// The balances of any set of accounts add up to no more than the sum
    /// of all balances.
    pub proof fn lemma_sum_within_total(&self, accounts: Seq<AccountId>)
        requires
            self.wf(),
            accounts.no_duplicates(),
        ensures
            sum_over(self@.balances, accounts) <= self.total_balance(),
    {
        lemma_sum_within_total_of(self.records(), accounts);
        assert(self@.balances =~= balances_of(self.records()));
    }

    /// No balance exceeds the sum of all balances.
    pub proof fn lemma_balance_within_total(&self, id: AccountId)
        requires
            self.wf(),
        ensures
            self.balance(id) <= self.total_balance(),
    {
        let records = self.records();
        match position(records, balance_key(id)) {
            Some(i) => {
                lemma_key_shapes(id, id);
                lemma_total_bounds_record(records, i);
                assert(records[i] == (balance_key(id), records[i].1));
            },
            None => {},
        }
    }
}

} // verus!
