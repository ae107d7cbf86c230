use bonding_curve_token::account::AccountId;
use bonding_curve_token::keys::{
    allowance_pointer, allowances_map_prefix_for_owner, balance_pointer, decode_amount,
    encode_amount, is_balance_pointer, owner_pointer,
};
use bonding_curve_token::error::TokenError;
use bonding_curve_token::ledger::Ledger;
use bonding_curve_token::metadata::TokenMetadata;
use bonding_curve_token::store::{bytes_equal, LedgerStore};
use bonding_curve_token::token::BondingCurveToken;

const A: AccountId = AccountId { block: 2, tx: 7 };
const B: AccountId = AccountId { block: 7, tx: 2 };

fn account_bytes_of(block_low: u8, tx_low: u8) -> Vec<u8> {
    let mut bytes = vec![0u8; 32];
    bytes[0] = block_low;
    bytes[16] = tx_low;
    bytes
}

#[test]
fn account_ids_encode_as_two_little_endian_numbers() {
    let id = AccountId::new(0x0102, 0x0a0b0c);
    let mut expected = vec![0u8; 32];
    expected[0] = 0x02;
    expected[1] = 0x01;
    expected[16] = 0x0c;
    expected[17] = 0x0b;
    expected[18] = 0x0a;
    assert_eq!(id.to_bytes(), expected);
    assert_eq!(AccountId::new(u128::MAX, 0).to_bytes()[..16], [0xffu8; 16]);
    assert_eq!(AccountId::new(u128::MAX, 0).to_bytes()[16..], [0u8; 16]);
}

#[test]
fn account_ids_decode_from_exactly_32_bytes() {
    let id = AccountId::new(u128::MAX - 5, 1u128 << 100);
    assert_eq!(AccountId::from_bytes(id.to_bytes().as_slice()), Some(id));
    assert_eq!(AccountId::from_bytes(&account_bytes_of(2, 7)), Some(A));
    assert_eq!(AccountId::from_bytes(&[]), None);
    assert_eq!(AccountId::from_bytes(&[0u8; 31]), None);
    assert_eq!(AccountId::from_bytes(&[0u8; 33]), None);
    assert_eq!(AccountId::from_bytes(&[0u8; 32]), Some(AccountId::new(0, 0)));
}

#[test]
fn account_ids_compare_by_both_numbers() {
    assert_eq!(AccountId::new(2, 7), A);
    assert_ne!(A, B);
    assert_ne!(AccountId::new(2, 8), A);
    assert_ne!(AccountId::new(3, 7), A);
}

#[test]
fn keys_are_prefix_then_accounts() {
    assert_eq!(owner_pointer(), b"/owner".to_vec());
    let mut balance = b"/balances/".to_vec();
    balance.extend_from_slice(&account_bytes_of(2, 7));
    assert_eq!(balance_pointer(&A), balance);
    let mut prefix = b"/allowances/".to_vec();
    prefix.extend_from_slice(&account_bytes_of(2, 7));
    assert_eq!(allowances_map_prefix_for_owner(&A), prefix);
    let mut allowance = prefix.clone();
    allowance.extend_from_slice(&account_bytes_of(7, 2));
    assert_eq!(allowance_pointer(&A, &B), allowance);
    assert_ne!(allowance_pointer(&A, &B), allowance_pointer(&B, &A));
}

#[test]
fn balance_keys_are_recognised() {
    assert!(is_balance_pointer(balance_pointer(&A).as_slice()));
    assert!(!is_balance_pointer(owner_pointer().as_slice()));
    assert!(!is_balance_pointer(allowance_pointer(&A, &B).as_slice()));
    assert!(!is_balance_pointer(&[]));
    let mut wrong_prefix = balance_pointer(&A);
    wrong_prefix[3] = b'x';
    assert!(!is_balance_pointer(wrong_prefix.as_slice()));
    let mut longer = balance_pointer(&A);
    longer.push(0);
    assert!(!is_balance_pointer(longer.as_slice()));
}

#[test]
fn amounts_encode_as_16_little_endian_bytes() {
    let mut expected = vec![0u8; 16];
    expected[0] = 0xe8;
    expected[1] = 0x03;
    assert_eq!(encode_amount(1000), expected);
    assert_eq!(encode_amount(u128::MAX), vec![0xffu8; 16]);
    assert_eq!(decode_amount(Some(&expected)), 1000);
    assert_eq!(decode_amount(Some(&encode_amount(u128::MAX - 1))), u128::MAX - 1);
}

#[test]
fn unusable_stored_amounts_read_as_zero() {
    assert_eq!(decode_amount(None), 0);
    assert_eq!(decode_amount(Some(&Vec::new())), 0);
    assert_eq!(decode_amount(Some(&vec![1u8; 15])), 0);
    assert_eq!(decode_amount(Some(&vec![1u8; 17])), 0);
}

#[test]
fn byte_strings_compare_by_content() {
    assert!(bytes_equal(&[], &[]));
    assert!(bytes_equal(&[1, 2, 3], &[1, 2, 3]));
    assert!(!bytes_equal(&[1, 2, 3], &[1, 2]));
    assert!(!bytes_equal(&[1, 2], &[1, 2, 3]));
    assert!(!bytes_equal(&[1, 2, 3], &[1, 2, 4]));
    assert!(!bytes_equal(&[0, 2, 3], &[1, 2, 3]));
}

#[test]
fn store_reads_back_what_was_written() {
    let mut store = LedgerStore::new();
    assert_eq!(store.len(), 0);
    assert_eq!(store.get(b"k"), None);
    store.set(b"k".to_vec(), b"one".to_vec());
    store.set(b"other".to_vec(), b"two".to_vec());
    assert_eq!(store.get(b"k"), Some(&b"one".to_vec()));
    assert_eq!(store.get(b"other"), Some(&b"two".to_vec()));
    assert_eq!(store.get(b"missing"), None);
    assert_eq!(store.get(b""), None);
    assert_eq!(store.len(), 2);
}

#[test]
fn store_writes_replace() {
    let mut store = LedgerStore::new();
    store.set(b"k".to_vec(), b"one".to_vec());
    store.set(b"other".to_vec(), b"two".to_vec());
    store.set(b"k".to_vec(), b"three".to_vec());
    assert_eq!(store.len(), 2);
    assert_eq!(store.get(b"k"), Some(&b"three".to_vec()));
    assert_eq!(store.get(b"other"), Some(&b"two".to_vec()));
    assert_eq!(store.key_at(0), &b"k".to_vec());
    assert_eq!(store.value_at(0), &b"three".to_vec());
    assert_eq!(store.key_at(1), &b"other".to_vec());
    assert_eq!(store.value_at(1), &b"two".to_vec());
    store.set(Vec::new(), Vec::new());
    assert_eq!(store.get(b""), Some(&Vec::new()));
    assert_eq!(store.len(), 3);
}

#[test]
fn ledger_tables_default_to_zero() {
    let ledger = Ledger::new();
    assert_eq!(ledger.get_balance(&A), 0);
    assert_eq!(ledger.get_allowance(&A, &B), 0);
    assert_eq!(ledger.get_owner(), Err(TokenError::NotInitialized));
    assert_eq!(ledger.sum_balances(), Some(0));
}

#[test]
fn ledger_writes_are_absolute_and_independent() {
    let mut ledger = Ledger::new();
    ledger.set_balance(&A, 10);
    ledger.set_balance(&B, 20);
    ledger.set_allowance(&A, &B, 30);
    ledger.set_allowance(&B, &A, 40);
    ledger.set_owner(&B);
    ledger.set_balance(&A, 11);
    ledger.set_allowance(&A, &B, 31);
    assert_eq!(ledger.get_balance(&A), 11);
    assert_eq!(ledger.get_balance(&B), 20);
    assert_eq!(ledger.get_allowance(&A, &B), 31);
    assert_eq!(ledger.get_allowance(&B, &A), 40);
    assert_eq!(ledger.get_allowance(&A, &A), 0);
    assert_eq!(ledger.get_owner(), Ok(B));
    assert_eq!(ledger.sum_balances(), Some(31));
}

#[test]
fn ledger_is_kept_under_the_composed_keys() {
    let mut ledger = Ledger::new();
    ledger.set_balance(&A, 1000);
    ledger.set_allowance(&A, &B, 5);
    ledger.set_owner(&A);
    let store = ledger.into_store();
    assert_eq!(store.len(), 3);
    assert_eq!(store.get(balance_pointer(&A).as_slice()), Some(&encode_amount(1000)));
    assert_eq!(store.get(allowance_pointer(&A, &B).as_slice()), Some(&encode_amount(5)));
    assert_eq!(store.get(owner_pointer().as_slice()), Some(&A.to_bytes()));
}

#[test]
fn ledger_reads_what_a_store_holds() {
    let mut store = LedgerStore::new();
    store.set(balance_pointer(&A), encode_amount(77));
    store.set(balance_pointer(&B), vec![1, 2, 3]);
    store.set(allowance_pointer(&B, &A), encode_amount(8));
    store.set(owner_pointer(), B.to_bytes());
    let ledger = Ledger::from_store(store);
    assert_eq!(ledger.get_balance(&A), 77);
    assert_eq!(ledger.get_balance(&B), 0);
    assert_eq!(ledger.get_allowance(&B, &A), 8);
    assert_eq!(ledger.get_owner(), Ok(B));
    assert_eq!(ledger.sum_balances(), Some(77));
}

#[test]
fn owner_of_the_wrong_width_is_no_owner() {
    let mut store = LedgerStore::new();
    store.set(owner_pointer(), Vec::new());
    assert_eq!(Ledger::from_store(store).get_owner(), Err(TokenError::NotInitialized));
    let mut store = LedgerStore::new();
    store.set(owner_pointer(), vec![0u8; 31]);
    assert_eq!(Ledger::from_store(store).get_owner(), Err(TokenError::NotInitialized));
    let mut store = LedgerStore::new();
    store.set(owner_pointer(), vec![0u8; 32]);
    assert_eq!(Ledger::from_store(store).get_owner(), Ok(AccountId::new(0, 0)));
}

#[test]
fn sum_of_balances_reports_overflow() {
    let mut ledger = Ledger::new();
    ledger.set_balance(&A, u128::MAX);
    assert_eq!(ledger.sum_balances(), Some(u128::MAX));
    ledger.set_balance(&B, 1);
    assert_eq!(ledger.sum_balances(), None);
    ledger.set_balance(&A, u128::MAX - 1);
    assert_eq!(ledger.sum_balances(), Some(u128::MAX));
}

#[test]
fn metadata_counts_the_supply() {
    let mut metadata = TokenMetadata::new();
    assert_eq!(metadata.total_supply(), 0);
    assert_eq!(metadata.name().as_str(), "");
    metadata.set_name_and_symbol("Name".to_string(), "NM".to_string());
    assert!(metadata.increase_total_supply(5));
    assert!(metadata.increase_total_supply(u128::MAX - 5));
    assert_eq!(metadata.total_supply(), u128::MAX);
    assert!(!metadata.increase_total_supply(1));
    assert_eq!(metadata.total_supply(), u128::MAX);
    assert!(metadata.increase_total_supply(0));
    assert_eq!(metadata.name().as_str(), "Name");
    assert_eq!(metadata.symbol().as_str(), "NM");
}

#[test]
fn token_survives_being_taken_apart() {
    let owner = A;
    let ctx = bonding_curve_token::response::CallContext {
        myself: AccountId::new(9, 9),
        caller: owner,
        incoming: Vec::new(),
    };
    let mut token = BondingCurveToken::new();
    token.initialize(&ctx, "T".to_string(), "S".to_string(), 500).unwrap();
    token.transfer(&ctx, B, 123).unwrap();
    let (ledger, metadata) = token.into_parts();
    let restored = BondingCurveToken::restore(ledger, metadata).unwrap();
    assert_eq!(restored.ledger().get_balance(&A), 377);
    assert_eq!(restored.ledger().get_balance(&B), 123);
    assert_eq!(restored.ledger().get_owner(), Ok(A));
    assert_eq!(restored.metadata().total_supply(), 500);
    assert_eq!(restored.metadata().symbol().as_str(), "S");
}

#[test]
fn restore_refuses_parts_that_do_not_add_up() {
    let mut ledger = Ledger::new();
    ledger.set_owner(&A);
    ledger.set_balance(&A, 10);
    ledger.set_balance(&B, 5);
    let short = TokenMetadata::from_parts("T".to_string(), "T".to_string(), 14);
    assert!(BondingCurveToken::restore(ledger, short).is_none());

    let mut ledger = Ledger::new();
    ledger.set_balance(&A, 10);
    let ownerless = TokenMetadata::from_parts("T".to_string(), "T".to_string(), 10);
    assert!(BondingCurveToken::restore(ledger, ownerless).is_none());

    let mut ledger = Ledger::new();
    ledger.set_balance(&A, u128::MAX);
    ledger.set_balance(&B, 1);
    ledger.set_owner(&A);
    let full = TokenMetadata::from_parts("T".to_string(), "T".to_string(), u128::MAX);
    assert!(BondingCurveToken::restore(ledger, full).is_none());

    let mut ledger = Ledger::new();
    ledger.set_owner(&A);
    ledger.set_balance(&A, 10);
    ledger.set_balance(&B, 5);
    ledger.set_allowance(&A, &B, 1000);
    let right = TokenMetadata::from_parts("T".to_string(), "T".to_string(), 15);
    assert!(BondingCurveToken::restore(ledger, right).is_some());

    let empty = TokenMetadata::from_parts("T".to_string(), "T".to_string(), 0);
    assert!(BondingCurveToken::restore(Ledger::new(), empty).is_some());
}
