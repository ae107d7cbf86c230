use bonding_curve_token::account::AccountId;
use bonding_curve_token::error::TokenError;
use bonding_curve_token::message::Operation;
use bonding_curve_token::response::{CallContext, CallResponse, TokenTransfer};
use bonding_curve_token::token::BondingCurveToken;

const CONTRACT: AccountId = AccountId { block: 2, tx: 0 };
const OWNER: AccountId = AccountId { block: 1, tx: 1 };
const X: AccountId = AccountId { block: 1, tx: 2 };

fn call(caller: AccountId) -> CallContext {
    CallContext { myself: CONTRACT, caller, incoming: vec![TokenTransfer { id: X, value: 1 }] }
}

fn le(amount: u128) -> Vec<u8> {
    amount.to_le_bytes().to_vec()
}

#[test]
fn operations_have_their_codes() {
    let init = Operation::Initialize { name: String::new(), symbol: String::new(), total_supply: 0 };
    assert_eq!(init.opcode(), 0);
    assert_eq!(Operation::GetName.opcode(), 99);
    assert_eq!(Operation::GetSymbol.opcode(), 100);
    assert_eq!(Operation::GetTotalSupply.opcode(), 101);
    assert_eq!(Operation::BalanceOf { address: X }.opcode(), 102);
    assert_eq!(Operation::Transfer { to: X, amount: 1 }.opcode(), 103);
    assert_eq!(Operation::Approve { spender: X, amount: 1 }.opcode(), 104);
    assert_eq!(Operation::Allowance { owner: X, spender: X }.opcode(), 105);
    assert_eq!(Operation::TransferFrom { from: X, to: OWNER, amount: 1 }.opcode(), 106);
    assert_eq!(Operation::BuyTokens { script_hex: String::new(), min_tokens: 1 }.opcode(), 107);
    assert_eq!(Operation::SellTokens { amount: 1 }.opcode(), 108);
}

#[test]
fn dispatch_carries_out_each_operation() {
    let mut token = BondingCurveToken::new();
    let init = Operation::Initialize {
        name: "Token".to_string(),
        symbol: "TKN".to_string(),
        total_supply: 1000,
    };
    let response = token.dispatch(&call(OWNER), None, init).unwrap();
    assert_eq!(response.data, Vec::<u8>::new());
    assert_eq!(response.transfers, vec![TokenTransfer { id: X, value: 1 }]);

    let data = |r: Result<CallResponse, TokenError>| r.unwrap().data;
    assert_eq!(data(token.dispatch(&call(X), None, Operation::GetName)), b"Token".to_vec());
    assert_eq!(data(token.dispatch(&call(X), None, Operation::GetSymbol)), b"TKN".to_vec());
    assert_eq!(data(token.dispatch(&call(X), None, Operation::GetTotalSupply)), le(1000));
    assert_eq!(
        data(token.dispatch(&call(OWNER), None, Operation::Transfer { to: X, amount: 100 })),
        vec![1]
    );
    assert_eq!(
        data(token.dispatch(&call(X), None, Operation::BalanceOf { address: X })),
        le(100)
    );
    assert_eq!(
        data(token.dispatch(&call(X), None, Operation::Approve { spender: CONTRACT, amount: 60 })),
        vec![1]
    );
    assert_eq!(
        data(token.dispatch(&call(OWNER), None, Operation::Allowance { owner: X, spender: CONTRACT })),
        le(60)
    );
    assert_eq!(data(token.dispatch(&call(X), None, Operation::SellTokens { amount: 50 })), vec![1]);
    assert_eq!(
        data(token.dispatch(&call(OWNER), None, Operation::BalanceOf { address: OWNER })),
        le(950)
    );
    assert_eq!(
        data(token.dispatch(
            &call(CONTRACT),
            None,
            Operation::TransferFrom { from: X, to: OWNER, amount: 10 }
        )),
        vec![1]
    );
    assert_eq!(
        data(token.dispatch(
            &call(CONTRACT),
            None,
            Operation::TransferFrom { from: X, to: OWNER, amount: 1 }
        )),
        vec![0]
    );
    assert_eq!(
        data(token.dispatch(
            &call(X),
            None,
            Operation::BuyTokens { script_hex: "51".to_string(), min_tokens: 1 }
        )),
        vec![0]
    );
    assert_eq!(
        token.dispatch(&call(X), None, Operation::Transfer { to: X, amount: 1 }).unwrap_err(),
        TokenError::SelfTransfer
    );
    assert_eq!(token.ledger().get_balance(&X), 40);
    assert_eq!(token.ledger().get_balance(&OWNER), 960);
}
