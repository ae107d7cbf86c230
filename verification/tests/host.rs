use bonding_curve_token::account::AccountId;
use bonding_curve_token::error::TokenError;
use bonding_curve_token::keys::{balance_pointer, encode_amount};
use bonding_curve_token::ledger::Ledger;
use bonding_curve_token::message::Operation;
use bonding_curve_token::metadata::TokenMetadata;
use bonding_curve_token::response::{CallContext, CallResponse};
use bonding_curve_token::store::LedgerStore;
use bonding_curve_token::token::BondingCurveToken;
use std::collections::HashMap;

const CONTRACT: AccountId = AccountId { block: 2, tx: 0 };
const OWNER: AccountId = AccountId { block: 1, tx: 1 };
const X: AccountId = AccountId { block: 1, tx: 2 };

/// A host that keeps byte strings under byte-string keys between calls.
struct Host {
    storage: HashMap<Vec<u8>, Vec<u8>>,
    name: String,
    symbol: String,
    supply: u128,
}

fn slot(index: u64) -> Vec<u8> {
    [b"/keys/".as_slice(), index.to_le_bytes().as_slice()].concat()
}

impl Host {
    fn new() -> Host {
        Host { storage: HashMap::new(), name: String::new(), symbol: String::new(), supply: 0 }
    }

    fn get(&self, key: &[u8]) -> Vec<u8> {
        self.storage.get(key).cloned().unwrap_or_default()
    }

    fn load(&self) -> Option<BondingCurveToken> {
        let count = u64::from_le_bytes(
            self.get(b"/keys/length").as_slice().try_into().unwrap_or([0u8; 8]),
        );
        let mut store = LedgerStore::new();
        for index in 0..count {
            let key = self.get(&slot(index));
            let value = self.get(&key);
            store.set(key, value);
        }
        let metadata =
            TokenMetadata::from_parts(self.name.clone(), self.symbol.clone(), self.supply);
        BondingCurveToken::restore(Ledger::from_store(store), metadata)
    }

    fn save(&mut self, token: BondingCurveToken) {
        let (ledger, metadata) = token.into_parts();
        self.name = metadata.name().clone();
        self.symbol = metadata.symbol().clone();
        self.supply = metadata.total_supply();
        let store = ledger.into_store();
        for index in 0..store.len() {
            let key = store.key_at(index).clone();
            self.storage.insert(slot(index as u64), key.clone());
            self.storage.insert(key, store.value_at(index).clone());
        }
        self.storage.insert(b"/keys/length".to_vec(), (store.len() as u64).to_le_bytes().to_vec());
    }

    fn call(&mut self, caller: AccountId, op: Operation) -> Result<CallResponse, TokenError> {
        let ctx = CallContext { myself: CONTRACT, caller, incoming: Vec::new() };
        let mut token = self.load().unwrap();
        let outcome = token.dispatch(&ctx, None, op);
        if outcome.is_ok() {
            self.save(token);
        }
        outcome
    }
}

#[test]
fn state_survives_between_calls() {
    let mut host = Host::new();
    let init =
        Operation::Initialize { name: "T".to_string(), symbol: "T".to_string(), total_supply: 1000 };
    host.call(OWNER, init).unwrap();
    assert_eq!(host.call(OWNER, Operation::Transfer { to: X, amount: 100 }).unwrap().data, vec![1]);
    assert_eq!(
        host.call(X, Operation::Approve { spender: CONTRACT, amount: 30 }).unwrap().data,
        vec![1]
    );
    assert_eq!(host.call(X, Operation::SellTokens { amount: 30 }).unwrap().data, vec![1]);
    assert_eq!(host.call(X, Operation::SellTokens { amount: 1 }).unwrap().data, vec![0]);
    assert_eq!(
        host.call(X, Operation::BalanceOf { address: X }).unwrap().data,
        70u128.to_le_bytes().to_vec()
    );
    assert_eq!(
        host.call(X, Operation::BalanceOf { address: OWNER }).unwrap().data,
        930u128.to_le_bytes().to_vec()
    );
    assert_eq!(host.get(balance_pointer(&X).as_slice()), encode_amount(70));
    assert_eq!(host.get(balance_pointer(&OWNER).as_slice()), encode_amount(930));
    assert_eq!(host.supply, 1000);
}

#[test]
fn failed_calls_leave_the_stored_state() {
    let mut host = Host::new();
    let init =
        Operation::Initialize { name: "T".to_string(), symbol: "T".to_string(), total_supply: 10 };
    host.call(OWNER, init).unwrap();
    let before = host.storage.clone();
    assert_eq!(
        host.call(OWNER, Operation::Transfer { to: OWNER, amount: 1 }).unwrap_err(),
        TokenError::SelfTransfer
    );
    let again =
        Operation::Initialize { name: "U".to_string(), symbol: "U".to_string(), total_supply: 1 };
    assert_eq!(host.call(X, again).unwrap_err(), TokenError::AlreadyInitialized);
    assert_eq!(host.storage, before);
    assert_eq!(host.name, "T");
}

#[test]
fn tampered_storage_is_refused() {
    let mut host = Host::new();
    let init =
        Operation::Initialize { name: "T".to_string(), symbol: "T".to_string(), total_supply: 10 };
    host.call(OWNER, init).unwrap();
    host.storage.insert(balance_pointer(&OWNER), encode_amount(11));
    assert!(host.load().is_none());
    host.storage.insert(balance_pointer(&OWNER), encode_amount(10));
    assert!(host.load().is_some());
}
