use cw20_ico::contract::{execute, instantiate, query, query_balance, query_minter, query_token_info};
use cw20_ico::error::{ContractError, InstantiateError};
use cw20_ico::msg::{ExecuteMsg, InstantiateMsg, QueryAnswer, QueryMsg, ReceiveNotice, TokenInfoResponse, MinterResponse};
use cw20_ico::state::{Contract, Env, MinterData};

const CREATOR: u64 = 1;
const ADDR0000: u64 = 1000;
const ADDR0001: u64 = 1001;
const ADDR0002: u64 = 1002;
const GENESIS: u64 = 2000;
const MINTER: u64 = 2001;
const LUCKY: u64 = 2002;
const ANYONE_ELSE: u64 = 2003;
const ASMODAT: u64 = 2004;

fn mock_env() -> Env {
    Env { height: 12_345, time: 1_571_797_419 }
}

fn get_balance(c: &Contract, address: u64) -> u128 {
    query_balance(c, address).balance
}

fn base_msg(name: &str, symbol: &str, decimals: u8, balances: Vec<(u64, u128)>) -> InstantiateMsg {
    InstantiateMsg {
        name: name.to_string(),
        symbol: symbol.to_string(),
        decimals,
        initial_balances: balances,
        mint: None,
        owner: CREATOR,
        target_amount: 0,
        conversion_ratio_norm: 1,
        conversion_ratio_denorm: 1,
    }
}

fn do_instantiate_with_minter(
    addr: u64,
    amount: u128,
    minter: u64,
    cap: Option<u128>,
) -> (Contract, TokenInfoResponse) {
    do_instantiate_full(addr, amount, Some(MinterData { minter, cap }))
}

fn do_instantiate(addr: u64, amount: u128) -> (Contract, TokenInfoResponse) {
    do_instantiate_full(addr, amount, None)
}

fn do_instantiate_full(
    addr: u64,
    amount: u128,
    mint: Option<MinterData>,
) -> (Contract, TokenInfoResponse) {
    let mut msg = base_msg("Auto Gen", "AUTO", 3, vec![(addr, amount)]);
    msg.mint = mint;
    let c = instantiate(msg).unwrap();
    let meta = query_token_info(&c);
    assert_eq!(
        meta,
        TokenInfoResponse {
            name: "Auto Gen".to_string(),
            symbol: "AUTO".to_string(),
            decimals: 3,
            total_supply: amount,
        }
    );
    assert_eq!(get_balance(&c, addr), amount);
    assert_eq!(
        query_minter(&c),
        mint.map(|m| MinterResponse { minter: m.minter, cap: m.cap })
    );
    (c, meta)
}

#[test]
fn proper_instantiation() {
    let amount: u128 = 11223344;
    let msg = base_msg("Cash Token", "CASH", 9, vec![(ADDR0000, amount)]);
    let c = instantiate(msg).unwrap();

    assert_eq!(
        query_token_info(&c),
        TokenInfoResponse {
            name: "Cash Token".to_string(),
            symbol: "CASH".to_string(),
            decimals: 9,
            total_supply: amount,
        }
    );
    assert_eq!(get_balance(&c, ADDR0000), 11223344);
}

#[test]
fn instantiate_mintable() {
    let amount: u128 = 11223344;
    let limit: u128 = 511223344;
    let mut msg = base_msg("Cash Token", "CASH", 9, vec![(ADDR0000, amount)]);
    msg.mint = Some(MinterData { minter: ASMODAT, cap: Some(limit) });
    let c = instantiate(msg).unwrap();

    assert_eq!(
        query_token_info(&c),
        TokenInfoResponse {
            name: "Cash Token".to_string(),
            symbol: "CASH".to_string(),
            decimals: 9,
            total_supply: amount,
        }
    );
    assert_eq!(get_balance(&c, ADDR0000), 11223344);
    assert_eq!(
        query_minter(&c),
        Some(MinterResponse { minter: ASMODAT, cap: Some(limit) }),
    );
}

#[test]
fn instantiate_mintable_over_cap() {
    let amount: u128 = 11223344;
    let limit: u128 = 11223300;
    let mut msg = base_msg("Cash Token", "CASH", 9, vec![(ADDR0000, amount)]);
    msg.mint = Some(MinterData { minter: ASMODAT, cap: Some(limit) });
    let err = instantiate(msg).unwrap_err();
    assert_eq!(err, InstantiateError::SupplyExceedsCap);
}

#[test]
fn can_mint_by_minter() {
    let amount: u128 = 11223344;
    let limit: u128 = 511223344;
    let (mut c, _) = do_instantiate_with_minter(GENESIS, amount, ASMODAT, Some(limit));

    // minter can mint coins to some winner
    let prize: u128 = 222_222_222;
    let msg = ExecuteMsg::Mint { recipient: LUCKY, amount: prize };
    let env = mock_env();
    let res = execute(&mut c, &env, ASMODAT, msg).unwrap();
    assert_eq!(0, res.messages.len());
    assert_eq!(get_balance(&c, GENESIS), amount);
    assert_eq!(get_balance(&c, LUCKY), prize);

    // but cannot mint nothing
    let msg = ExecuteMsg::Mint { recipient: LUCKY, amount: 0 };
    let err = execute(&mut c, &env, ASMODAT, msg).unwrap_err();
    assert_eq!(err, ContractError::InvalidZeroAmount);

    // but if it exceeds cap (even over multiple rounds), it fails
    let msg = ExecuteMsg::Mint { recipient: LUCKY, amount: 333_222_222 };
    let err = execute(&mut c, &env, ASMODAT, msg).unwrap_err();
    assert_eq!(err, ContractError::CannotExceedCap);
}

#[test]
fn others_cannot_mint() {
    let (mut c, _) = do_instantiate_with_minter(GENESIS, 1234, MINTER, None);

    let msg = ExecuteMsg::Mint { recipient: LUCKY, amount: 222 };
    let env = mock_env();
    let err = execute(&mut c, &env, ANYONE_ELSE, msg).unwrap_err();
    assert_eq!(err, ContractError::Unauthorized);
}

#[test]
fn no_one_mints_if_minter_unset() {
    let (mut c, _) = do_instantiate(GENESIS, 1234);

    let msg = ExecuteMsg::Mint { recipient: LUCKY, amount: 222 };
    let env = mock_env();
    let err = execute(&mut c, &env, GENESIS, msg).unwrap_err();
    assert_eq!(err, ContractError::Unauthorized);
}

#[test]
fn instantiate_multiple_accounts() {
    let amount1: u128 = 11223344;
    let amount2: u128 = 7890987;
    let msg = base_msg(
        "Bash Shell",
        "BASH",
        6,
        vec![(ADDR0001, amount1), (ADDR0002, amount2)],
    );
    let c = instantiate(msg).unwrap();

    assert_eq!(
        query_token_info(&c),
        TokenInfoResponse {
            name: "Bash Shell".to_string(),
            symbol: "BASH".to_string(),
            decimals: 6,
            total_supply: amount1 + amount2,
        }
    );
    assert_eq!(get_balance(&c, ADDR0001), amount1);
    assert_eq!(get_balance(&c, ADDR0002), amount2);
}

#[test]
fn queries_work() {
    let amount1: u128 = 12340000;
    let (c, expected) = do_instantiate(ADDR0001, amount1);

    // check meta query
    let loaded = query_token_info(&c);
    assert_eq!(expected, loaded);

    // check balance query (full)
    let answer = query(&c, QueryMsg::Balance { address: ADDR0001 });
    match answer {
        QueryAnswer::Balance(b) => assert_eq!(b.balance, amount1),
        _ => panic!("wrong query answer"),
    }

    // check balance query (empty)
    let answer = query(&c, QueryMsg::Balance { address: ADDR0002 });
    match answer {
        QueryAnswer::Balance(b) => assert_eq!(b.balance, 0),
        _ => panic!("wrong query answer"),
    }
}

#[test]
fn transfer() {
    let amount1: u128 = 12340000;
    let transfer: u128 = 76543;
    let too_much: u128 = 12340321;
    let (mut c, _) = do_instantiate(ADDR0001, amount1);
    let env = mock_env();

    // cannot transfer nothing
    let msg = ExecuteMsg::Transfer { recipient: ADDR0002, amount: 0 };
    let err = execute(&mut c, &env, ADDR0001, msg).unwrap_err();
    assert_eq!(err, ContractError::InvalidZeroAmount);

    // cannot send more than we have
    let msg = ExecuteMsg::Transfer { recipient: ADDR0002, amount: too_much };
    let err = execute(&mut c, &env, ADDR0001, msg).unwrap_err();
    assert!(matches!(err, ContractError::Underflow));

    // cannot send from empty account
    let msg = ExecuteMsg::Transfer { recipient: ADDR0001, amount: transfer };
    let err = execute(&mut c, &env, ADDR0002, msg).unwrap_err();
    assert!(matches!(err, ContractError::Underflow));

    // valid transfer
    let msg = ExecuteMsg::Transfer { recipient: ADDR0002, amount: transfer };
    let res = execute(&mut c, &env, ADDR0001, msg).unwrap();
    assert_eq!(res.messages.len(), 0);

    let remainder = amount1 - transfer;
    assert_eq!(get_balance(&c, ADDR0001), remainder);
    assert_eq!(get_balance(&c, ADDR0002), transfer);
    assert_eq!(query_token_info(&c).total_supply, amount1);
}

#[test]
fn transfer_to_self_nets_zero() {
    let amount1: u128 = 12340000;
    let (mut c, _) = do_instantiate(ADDR0001, amount1);
    let env = mock_env();
    let msg = ExecuteMsg::Transfer { recipient: ADDR0001, amount: 76543 };
    execute(&mut c, &env, ADDR0001, msg).unwrap();
    assert_eq!(get_balance(&c, ADDR0001), amount1);
    assert_eq!(query_token_info(&c).total_supply, amount1);
}

#[test]
fn get_cap_reads_minter() {
    let (c, _) = do_instantiate_with_minter(GENESIS, 1234, MINTER, Some(5000));
    assert_eq!(c.token.get_cap(), Some(5000));
    let (c, _) = do_instantiate_with_minter(GENESIS, 1234, MINTER, None);
    assert_eq!(c.token.get_cap(), None);
    let (c, _) = do_instantiate(GENESIS, 1234);
    assert_eq!(c.token.get_cap(), None);
}

#[test]
fn burn() {
    let amount1: u128 = 12340000;
    let burn: u128 = 76543;
    let too_much: u128 = 12340321;
    let (mut c, _) = do_instantiate(ADDR0001, amount1);
    let env = mock_env();

    // cannot burn nothing
    let msg = ExecuteMsg::Burn { amount: 0 };
    let err = execute(&mut c, &env, ADDR0001, msg).unwrap_err();
    assert_eq!(err, ContractError::InvalidZeroAmount);
    assert_eq!(query_token_info(&c).total_supply, amount1);

    // cannot burn more than we have
    let msg = ExecuteMsg::Burn { amount: too_much };
    let err = execute(&mut c, &env, ADDR0001, msg).unwrap_err();
    assert!(matches!(err, ContractError::Underflow));
    assert_eq!(query_token_info(&c).total_supply, amount1);

    // valid burn reduces total supply
    let msg = ExecuteMsg::Burn { amount: burn };
    let res = execute(&mut c, &env, ADDR0001, msg).unwrap();
    assert_eq!(res.messages.len(), 0);

    let remainder = amount1 - burn;
    assert_eq!(get_balance(&c, ADDR0001), remainder);
    assert_eq!(query_token_info(&c).total_supply, remainder);
}

#[test]
fn send() {
    let contract: u64 = ADDR0002;
    let amount1: u128 = 12340000;
    let transfer: u128 = 76543;
    let too_much: u128 = 12340321;
    let send_msg: Vec<u8> = br#"{"some":123}"#.to_vec();
    let (mut c, _) = do_instantiate(ADDR0001, amount1);
    let env = mock_env();

    // cannot send nothing
    let msg = ExecuteMsg::Send { contract, amount: 0, msg: Some(send_msg.clone()) };
    let err = execute(&mut c, &env, ADDR0001, msg).unwrap_err();
    assert_eq!(err, ContractError::InvalidZeroAmount);

    // cannot send more than we have
    let msg = ExecuteMsg::Send { contract, amount: too_much, msg: Some(send_msg.clone()) };
    let err = execute(&mut c, &env, ADDR0001, msg).unwrap_err();
    assert!(matches!(err, ContractError::Underflow));

    // valid transfer
    let msg = ExecuteMsg::Send { contract, amount: transfer, msg: Some(send_msg.clone()) };
    let res = execute(&mut c, &env, ADDR0001, msg).unwrap();
    assert_eq!(res.messages.len(), 1);

    // ensure the proper notification is queued for the other side
    let notice: &ReceiveNotice = &res.messages[0];
    assert_eq!(notice.contract, contract);
    assert_eq!(notice.sender, ADDR0001);
    assert_eq!(notice.amount, transfer);
    assert_eq!(notice.msg, Some(send_msg));

    // ensure balance is properly transferred
    let remainder = amount1 - transfer;
    assert_eq!(get_balance(&c, ADDR0001), remainder);
    assert_eq!(get_balance(&c, contract), transfer);
    assert_eq!(query_token_info(&c).total_supply, amount1);
}
