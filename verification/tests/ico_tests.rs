use cw20_ico::contract::{execute, instantiate, query_balance};
use cw20_ico::error::{ContractError, InstantiateError};
use cw20_ico::msg::{ActionKind, Attribute, ExecuteMsg, InstantiateMsg};
use cw20_ico::state::{Contract, Env, IcoState};

const OWNER: u64 = 7;
const INVESTOR_A: u64 = 42;
const INVESTOR_B: u64 = 43;
const STRANGER: u64 = 99;

fn mock_env() -> Env {
    Env { height: 12_345, time: 1_571_797_419 }
}

fn ico_msg(
    balances: Vec<(u64, u128)>,
    target: u128,
    norm: u128,
    denorm: u128,
) -> InstantiateMsg {
    InstantiateMsg {
        name: "Fund Token".to_string(),
        symbol: "FUND".to_string(),
        decimals: 6,
        initial_balances: balances,
        mint: None,
        owner: OWNER,
        target_amount: target,
        conversion_ratio_norm: norm,
        conversion_ratio_denorm: denorm,
    }
}

fn balance(c: &Contract, a: u64) -> u128 {
    query_balance(c, a).balance
}

#[test]
fn target_cannot_exceed_supply() {
    let err = instantiate(ico_msg(vec![(INVESTOR_A, 100)], 101, 1, 2)).unwrap_err();
    assert_eq!(err, InstantiateError::TargetExceedsSupply);
}

#[test]
fn zero_ratio_denominator_rejected() {
    let err = instantiate(ico_msg(vec![(INVESTOR_A, 100)], 50, 1, 0)).unwrap_err();
    assert_eq!(err, InstantiateError::InvalidRatio);
}

#[test]
fn invest_zero_rejected() {
    let mut c = instantiate(ico_msg(vec![(INVESTOR_A, 1000)], 500, 1, 2)).unwrap();
    let env = mock_env();
    let err = execute(&mut c, &env, INVESTOR_A, ExecuteMsg::InvestInIco { ico: OWNER, amount: 0 })
        .unwrap_err();
    assert_eq!(err, ContractError::InvalidZeroAmount);
}

#[test]
fn invest_wrong_owner_rejected() {
    let mut c = instantiate(ico_msg(vec![(INVESTOR_A, 1000)], 500, 1, 2)).unwrap();
    let env = mock_env();
    let err = execute(
        &mut c,
        &env,
        INVESTOR_A,
        ExecuteMsg::InvestInIco { ico: STRANGER, amount: 100 },
    )
    .unwrap_err();
    assert_eq!(err, ContractError::WrongIcoAddress);
    assert_eq!(balance(&c, INVESTOR_A), 1000);
}

#[test]
fn invest_insufficient_balance_rejected() {
    let mut c = instantiate(ico_msg(vec![(INVESTOR_A, 100), (OWNER, 400)], 500, 1, 2)).unwrap();
    let env = mock_env();
    let err = execute(
        &mut c,
        &env,
        INVESTOR_A,
        ExecuteMsg::InvestInIco { ico: OWNER, amount: 150 },
    )
    .unwrap_err();
    assert_eq!(err, ContractError::Underflow);
    assert_eq!(balance(&c, INVESTOR_A), 100);
    assert_eq!(balance(&c, OWNER), 400);
}

// The genesis scenario: A holds 1000, the target is 500 at ratio 1/2.  A
// first invests 300, then another 300 of which only 200 is accepted; the
// owner closes the fully funded campaign and A's new-token credit is
// floor(500 * 1 / 2) = 250.
#[test]
fn genesis_scenario_partial_fill_and_allocation() {
    let mut c = instantiate(ico_msg(vec![(INVESTOR_A, 1000)], 500, 1, 2)).unwrap();
    let env = mock_env();

    // A invests 300: all of it is accepted.
    let res = execute(
        &mut c,
        &env,
        INVESTOR_A,
        ExecuteMsg::InvestInIco { ico: OWNER, amount: 300 },
    )
    .unwrap();
    assert_eq!(res.attributes[3], Attribute::Amount(300));
    assert_eq!(c.ico.raised_amount, 300);
    assert_eq!(balance(&c, INVESTOR_A), 700);
    assert_eq!(balance(&c, OWNER), 300);
    assert_eq!(c.ico.state, IcoState::Open);

    // A invests 300 again: only the 200 gap is accepted and charged.
    let res = execute(
        &mut c,
        &env,
        INVESTOR_A,
        ExecuteMsg::InvestInIco { ico: OWNER, amount: 300 },
    )
    .unwrap();
    assert_eq!(
        res.attributes,
        vec![
            Attribute::Action(ActionKind::IcoInvestment),
            Attribute::Sender(INVESTOR_A),
            Attribute::Recipient(OWNER),
            Attribute::Amount(200),
        ]
    );
    assert_eq!(c.ico.raised_amount, 500);
    assert_eq!(balance(&c, INVESTOR_A), 500);
    assert_eq!(balance(&c, OWNER), 500);
    assert_eq!(c.ico.state, IcoState::Funded);

    // The owner closes: allocation credits floor(500 * 1 / 2) = 250.
    execute(&mut c, &env, OWNER, ExecuteMsg::CloseIco { ico: OWNER }).unwrap();
    assert_eq!(c.ico.state, IcoState::Allocated);
    assert_eq!(c.new_token_balances.get(INVESTOR_A), 250);
    // The original balances are untouched by allocation.
    assert_eq!(balance(&c, INVESTOR_A), 500);
    assert_eq!(balance(&c, OWNER), 500);
}

// The emergency scenario: the target of 500 is never reached (A invested
// 200); the owner closes and the escrow is reversed.
#[test]
fn emergency_refund_scenario() {
    let mut c = instantiate(ico_msg(vec![(INVESTOR_A, 1000)], 500, 1, 2)).unwrap();
    let env = mock_env();

    execute(
        &mut c,
        &env,
        INVESTOR_A,
        ExecuteMsg::InvestInIco { ico: OWNER, amount: 200 },
    )
    .unwrap();
    assert_eq!(balance(&c, INVESTOR_A), 800);
    assert_eq!(balance(&c, OWNER), 200);

    execute(&mut c, &env, OWNER, ExecuteMsg::CloseIco { ico: OWNER }).unwrap();
    assert_eq!(c.ico.state, IcoState::Refunded);
    assert_eq!(balance(&c, INVESTOR_A), 1000);
    assert_eq!(balance(&c, OWNER), 0);
    assert_eq!(c.new_token_balances.get(INVESTOR_A), 0);
}

#[test]
fn invest_after_funded_rejected() {
    let mut c = instantiate(ico_msg(vec![(INVESTOR_A, 1000)], 500, 1, 2)).unwrap();
    let env = mock_env();
    execute(
        &mut c,
        &env,
        INVESTOR_A,
        ExecuteMsg::InvestInIco { ico: OWNER, amount: 500 },
    )
    .unwrap();
    assert_eq!(c.ico.state, IcoState::Funded);
    let err = execute(
        &mut c,
        &env,
        INVESTOR_A,
        ExecuteMsg::InvestInIco { ico: OWNER, amount: 1 },
    )
    .unwrap_err();
    assert_eq!(err, ContractError::IcoClosed);
}

#[test]
fn close_requires_owner() {
    let mut c = instantiate(ico_msg(vec![(INVESTOR_A, 1000)], 500, 1, 2)).unwrap();
    let env = mock_env();
    let err = execute(&mut c, &env, STRANGER, ExecuteMsg::CloseIco { ico: OWNER }).unwrap_err();
    assert_eq!(err, ContractError::Unauthorized);
}

#[test]
fn close_is_terminal() {
    let mut c = instantiate(ico_msg(vec![(INVESTOR_A, 1000)], 500, 1, 2)).unwrap();
    let env = mock_env();
    execute(
        &mut c,
        &env,
        INVESTOR_A,
        ExecuteMsg::InvestInIco { ico: OWNER, amount: 200 },
    )
    .unwrap();
    execute(&mut c, &env, OWNER, ExecuteMsg::CloseIco { ico: OWNER }).unwrap();
    assert_eq!(balance(&c, INVESTOR_A), 1000);
    // A second close cannot refund twice.
    let err = execute(&mut c, &env, OWNER, ExecuteMsg::CloseIco { ico: OWNER }).unwrap_err();
    assert_eq!(err, ContractError::IcoClosed);
    assert_eq!(balance(&c, INVESTOR_A), 1000);
    assert_eq!(balance(&c, OWNER), 0);
}

#[test]
fn refund_fails_when_owner_spent_escrow() {
    let mut c = instantiate(ico_msg(vec![(INVESTOR_A, 1000)], 500, 1, 2)).unwrap();
    let env = mock_env();
    execute(
        &mut c,
        &env,
        INVESTOR_A,
        ExecuteMsg::InvestInIco { ico: OWNER, amount: 200 },
    )
    .unwrap();
    // The owner spends the escrowed funds before closing.
    execute(&mut c, &env, OWNER, ExecuteMsg::Transfer { recipient: STRANGER, amount: 150 })
        .unwrap();
    let err = execute(&mut c, &env, OWNER, ExecuteMsg::CloseIco { ico: OWNER }).unwrap_err();
    assert_eq!(err, ContractError::Underflow);
    // Nothing moved: the failed refund left every balance unchanged.
    assert_eq!(balance(&c, INVESTOR_A), 800);
    assert_eq!(balance(&c, OWNER), 50);
    assert_eq!(balance(&c, STRANGER), 150);
    assert_eq!(c.ico.state, IcoState::Open);
}

#[test]
fn zero_target_campaign_starts_funded() {
    let mut c = instantiate(ico_msg(vec![(INVESTOR_A, 100)], 0, 1, 2)).unwrap();
    assert_eq!(c.ico.state, IcoState::Funded);
    let env = mock_env();
    let err = execute(
        &mut c,
        &env,
        INVESTOR_A,
        ExecuteMsg::InvestInIco { ico: OWNER, amount: 10 },
    )
    .unwrap_err();
    assert_eq!(err, ContractError::IcoClosed);
    execute(&mut c, &env, OWNER, ExecuteMsg::CloseIco { ico: OWNER }).unwrap();
    assert_eq!(c.ico.state, IcoState::Allocated);
    assert_eq!(c.new_token_balances.get(INVESTOR_A), 0);
}

#[test]
fn owner_investment_nets_zero_and_refund_skips_owner() {
    let mut c = instantiate(ico_msg(vec![(OWNER, 300), (INVESTOR_A, 300)], 500, 1, 1)).unwrap();
    let env = mock_env();

    // The owner investing in their own campaign escrows into themselves.
    execute(&mut c, &env, OWNER, ExecuteMsg::InvestInIco { ico: OWNER, amount: 100 }).unwrap();
    assert_eq!(balance(&c, OWNER), 300);
    assert_eq!(c.ico.raised_amount, 100);

    execute(
        &mut c,
        &env,
        INVESTOR_A,
        ExecuteMsg::InvestInIco { ico: OWNER, amount: 150 },
    )
    .unwrap();
    assert_eq!(balance(&c, INVESTOR_A), 150);
    assert_eq!(balance(&c, OWNER), 450);

    // An early close reverses only the other investors' escrow.
    execute(&mut c, &env, OWNER, ExecuteMsg::CloseIco { ico: OWNER }).unwrap();
    assert_eq!(c.ico.state, IcoState::Refunded);
    assert_eq!(balance(&c, INVESTOR_A), 300);
    assert_eq!(balance(&c, OWNER), 300);
}

// Truncating allocation: two investors at ratio 2/3; each credit is
// floored, and their sum stays at or below floor(target * 2 / 3).
#[test]
fn allocation_truncates_per_investor() {
    let mut c = instantiate(ico_msg(vec![(INVESTOR_A, 100), (INVESTOR_B, 100)], 9, 2, 3)).unwrap();
    let env = mock_env();
    execute(
        &mut c,
        &env,
        INVESTOR_A,
        ExecuteMsg::InvestInIco { ico: OWNER, amount: 4 },
    )
    .unwrap();
    execute(
        &mut c,
        &env,
        INVESTOR_B,
        ExecuteMsg::InvestInIco { ico: OWNER, amount: 5 },
    )
    .unwrap();
    assert_eq!(c.ico.raised_amount, 9);
    execute(&mut c, &env, OWNER, ExecuteMsg::CloseIco { ico: OWNER }).unwrap();
    // floor(4 * 2 / 3) = 2 and floor(5 * 2 / 3) = 3; 2 + 3 <= floor(9 * 2 / 3) = 6.
    assert_eq!(c.new_token_balances.get(INVESTOR_A), 2);
    assert_eq!(c.new_token_balances.get(INVESTOR_B), 3);
}
