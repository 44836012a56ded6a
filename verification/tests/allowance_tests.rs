use cw20_ico::contract::{execute, instantiate, query, query_balance, query_token_info};
use cw20_ico::error::ContractError;
use cw20_ico::msg::{AllowanceInfo, ExecuteMsg, InstantiateMsg, QueryAnswer, QueryMsg};
use cw20_ico::state::{Contract, Env, Expiration};

const OWNER: u64 = 11;
const SPENDER: u64 = 12;
const RECIPIENT: u64 = 13;
const CONTRACT: u64 = 14;

fn mock_env() -> Env {
    Env { height: 12_345, time: 1_571_797_419 }
}

fn setup(balance: u128) -> Contract {
    let msg = InstantiateMsg {
        name: "Auto Gen".to_string(),
        symbol: "AUTO".to_string(),
        decimals: 3,
        initial_balances: vec![(OWNER, balance)],
        mint: None,
        owner: OWNER,
        target_amount: 0,
        conversion_ratio_norm: 1,
        conversion_ratio_denorm: 1,
    };
    instantiate(msg).unwrap()
}

fn balance(c: &Contract, a: u64) -> u128 {
    query_balance(c, a).balance
}

fn allowance(c: &Contract, owner: u64, spender: u64) -> (u128, Expiration) {
    match query(c, QueryMsg::Allowance { owner, spender }) {
        QueryAnswer::Allowance(a) => (a.allowance, a.expires),
        _ => panic!("wrong query answer"),
    }
}

#[test]
fn increase_and_decrease_allowance() {
    let mut c = setup(1000);
    let env = mock_env();

    execute(
        &mut c,
        &env,
        OWNER,
        ExecuteMsg::IncreaseAllowance { spender: SPENDER, amount: 300, expires: None },
    )
    .unwrap();
    assert_eq!(allowance(&c, OWNER, SPENDER), (300, Expiration::Never));

    // increases accumulate, and a new expiry replaces the old one whole
    let exp = Expiration::AtHeight(99_999);
    execute(
        &mut c,
        &env,
        OWNER,
        ExecuteMsg::IncreaseAllowance { spender: SPENDER, amount: 50, expires: Some(exp) },
    )
    .unwrap();
    assert_eq!(allowance(&c, OWNER, SPENDER), (350, exp));

    execute(
        &mut c,
        &env,
        OWNER,
        ExecuteMsg::DecreaseAllowance { spender: SPENDER, amount: 100, expires: None },
    )
    .unwrap();
    assert_eq!(allowance(&c, OWNER, SPENDER), (250, exp));
}

#[test]
fn decrease_below_zero_fails() {
    let mut c = setup(1000);
    let env = mock_env();
    execute(
        &mut c,
        &env,
        OWNER,
        ExecuteMsg::IncreaseAllowance { spender: SPENDER, amount: 100, expires: None },
    )
    .unwrap();
    let err = execute(
        &mut c,
        &env,
        OWNER,
        ExecuteMsg::DecreaseAllowance { spender: SPENDER, amount: 101, expires: None },
    )
    .unwrap_err();
    assert_eq!(err, ContractError::Underflow);
    assert_eq!(allowance(&c, OWNER, SPENDER), (100, Expiration::Never));
}

#[test]
fn transfer_from_respects_allowance() {
    let mut c = setup(1000);
    let env = mock_env();

    // without an allowance, the spender may not move anything
    let err = execute(
        &mut c,
        &env,
        SPENDER,
        ExecuteMsg::TransferFrom { owner: OWNER, recipient: RECIPIENT, amount: 10 },
    )
    .unwrap_err();
    assert_eq!(err, ContractError::Unauthorized);

    execute(
        &mut c,
        &env,
        OWNER,
        ExecuteMsg::IncreaseAllowance { spender: SPENDER, amount: 300, expires: None },
    )
    .unwrap();

    // a zero amount is rejected
    let err = execute(
        &mut c,
        &env,
        SPENDER,
        ExecuteMsg::TransferFrom { owner: OWNER, recipient: RECIPIENT, amount: 0 },
    )
    .unwrap_err();
    assert_eq!(err, ContractError::InvalidZeroAmount);

    // more than the allowance is rejected
    let err = execute(
        &mut c,
        &env,
        SPENDER,
        ExecuteMsg::TransferFrom { owner: OWNER, recipient: RECIPIENT, amount: 301 },
    )
    .unwrap_err();
    assert_eq!(err, ContractError::Unauthorized);

    // a valid spend moves the owner's funds and lowers the remainder
    execute(
        &mut c,
        &env,
        SPENDER,
        ExecuteMsg::TransferFrom { owner: OWNER, recipient: RECIPIENT, amount: 120 },
    )
    .unwrap();
    assert_eq!(balance(&c, OWNER), 880);
    assert_eq!(balance(&c, RECIPIENT), 120);
    assert_eq!(allowance(&c, OWNER, SPENDER).0, 180);
}

#[test]
fn expired_allowance_behaves_as_zero() {
    let mut c = setup(1000);
    let env = mock_env();
    execute(
        &mut c,
        &env,
        OWNER,
        ExecuteMsg::IncreaseAllowance {
            spender: SPENDER,
            amount: 300,
            expires: Some(Expiration::AtHeight(env.height)),
        },
    )
    .unwrap();
    let err = execute(
        &mut c,
        &env,
        SPENDER,
        ExecuteMsg::TransferFrom { owner: OWNER, recipient: RECIPIENT, amount: 10 },
    )
    .unwrap_err();
    assert_eq!(err, ContractError::Unauthorized);
    assert_eq!(balance(&c, OWNER), 1000);
}

#[test]
fn burn_from_lowers_supply_and_allowance() {
    let mut c = setup(1000);
    let env = mock_env();
    execute(
        &mut c,
        &env,
        OWNER,
        ExecuteMsg::IncreaseAllowance { spender: SPENDER, amount: 300, expires: None },
    )
    .unwrap();
    execute(&mut c, &env, SPENDER, ExecuteMsg::BurnFrom { owner: OWNER, amount: 200 }).unwrap();
    assert_eq!(balance(&c, OWNER), 800);
    assert_eq!(query_token_info(&c).total_supply, 800);
    assert_eq!(allowance(&c, OWNER, SPENDER).0, 100);

    // the remainder no longer covers another 200
    let err = execute(&mut c, &env, SPENDER, ExecuteMsg::BurnFrom { owner: OWNER, amount: 200 })
        .unwrap_err();
    assert_eq!(err, ContractError::Unauthorized);
}

#[test]
fn send_from_queues_notice() {
    let mut c = setup(1000);
    let env = mock_env();
    execute(
        &mut c,
        &env,
        OWNER,
        ExecuteMsg::IncreaseAllowance { spender: SPENDER, amount: 300, expires: None },
    )
    .unwrap();
    let payload: Vec<u8> = br#"{"ping":true}"#.to_vec();
    let res = execute(
        &mut c,
        &env,
        SPENDER,
        ExecuteMsg::SendFrom {
            owner: OWNER,
            contract: CONTRACT,
            amount: 250,
            msg: Some(payload.clone()),
        },
    )
    .unwrap();
    assert_eq!(res.messages.len(), 1);
    assert_eq!(res.messages[0].contract, CONTRACT);
    assert_eq!(res.messages[0].sender, SPENDER);
    assert_eq!(res.messages[0].amount, 250);
    assert_eq!(res.messages[0].msg, Some(payload));
    assert_eq!(balance(&c, OWNER), 750);
    assert_eq!(balance(&c, CONTRACT), 250);
    assert_eq!(allowance(&c, OWNER, SPENDER).0, 50);
}

#[test]
fn enumerate_accounts_and_allowances() {
    let msg = InstantiateMsg {
        name: "Auto Gen".to_string(),
        symbol: "AUTO".to_string(),
        decimals: 3,
        initial_balances: vec![(5, 10), (3, 10), (9, 10), (7, 10)],
        mint: None,
        owner: OWNER,
        target_amount: 0,
        conversion_ratio_norm: 1,
        conversion_ratio_denorm: 1,
    };
    let mut c = instantiate(msg).unwrap();

    // ascending key order, whatever the genesis order was
    match query(&c, QueryMsg::AllAccounts { start_after: None, limit: None }) {
        QueryAnswer::AllAccounts(v) => assert_eq!(v, vec![3, 5, 7, 9]),
        _ => panic!("wrong query answer"),
    }
    // the cursor starts strictly after, and the limit caps the page
    match query(&c, QueryMsg::AllAccounts { start_after: Some(3), limit: Some(2) }) {
        QueryAnswer::AllAccounts(v) => assert_eq!(v, vec![5, 7]),
        _ => panic!("wrong query answer"),
    }

    let env = mock_env();
    execute(
        &mut c,
        &env,
        3,
        ExecuteMsg::IncreaseAllowance { spender: 20, amount: 1, expires: None },
    )
    .unwrap();
    execute(
        &mut c,
        &env,
        3,
        ExecuteMsg::IncreaseAllowance { spender: 18, amount: 2, expires: None },
    )
    .unwrap();
    execute(
        &mut c,
        &env,
        5,
        ExecuteMsg::IncreaseAllowance { spender: 19, amount: 3, expires: None },
    )
    .unwrap();
    match query(&c, QueryMsg::AllAllowances { owner: 3, start_after: None, limit: None }) {
        QueryAnswer::AllAllowances(v) => {
            assert_eq!(
                v,
                vec![
                    AllowanceInfo { spender: 18, allowance: 2, expires: Expiration::Never },
                    AllowanceInfo { spender: 20, allowance: 1, expires: Expiration::Never },
                ]
            );
        },
        _ => panic!("wrong query answer"),
    }
}

#[test]
fn duplicate_genesis_accounts_accumulate() {
    let msg = InstantiateMsg {
        name: "Auto Gen".to_string(),
        symbol: "AUTO".to_string(),
        decimals: 3,
        initial_balances: vec![(5, 10), (5, 32)],
        mint: None,
        owner: OWNER,
        target_amount: 0,
        conversion_ratio_norm: 1,
        conversion_ratio_denorm: 1,
    };
    let c = instantiate(msg).unwrap();
    assert_eq!(balance(&c, 5), 42);
    assert_eq!(query_token_info(&c).total_supply, 42);
}
