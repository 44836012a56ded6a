//! The balance operations and the campaign state machine.
//!
//! Each operation takes the whole contract state by mutable reference,
//! together with the caller's identity, and returns a structured outcome or
//! a typed failure.  A failure leaves the state exactly as it was: the host
//! adapter stores the state only on success, and the operations themselves
//! never mutate before their checks have passed.  Each operation's
//! postcondition is factored into a spec predicate so the dispatcher can
//! state precisely the same contract.

use vstd::prelude::*;
use crate::error::ContractError;
use crate::error::InstantiateError;
use crate::ledger::Entry;
use crate::ledger::lemma_amount_at_key;
use crate::ledger::lemma_amount_le_total;
use crate::ledger::lemma_total_from_nonneg;
use crate::ledger::total;
use crate::ledger::total_from;
use crate::msg::ActionKind;
use crate::msg::ExecuteMsg;
use crate::msg::InstantiateMsg;
use crate::msg::QueryMsg;
use crate::msg::Attribute;
use crate::msg::Response;
use crate::state::Contract;
use crate::state::Env;
use crate::state::IcoState;
use crate::state::same_state;

verus! {

/// Relies on `cosmwasm_std::Uint128::multiply_ratio`: it returns
/// `self * numerator / denominator`, floored, computed with a 256-bit
/// intermediate.  It panics when the denominator is zero or the result does
/// not fit in 128 bits, so those inputs are required away.
#[verifier::external_body]
fn multiply_ratio(amount: u128, norm: u128, denorm: u128) -> (r: u128)
    requires
        denorm > 0,
        amount as int * norm as int / denorm as int <= u128::MAX,
    ensures
        r as int == amount as int * norm as int / denorm as int,
{
    cosmwasm_std::Uint128::new(amount).multiply_ratio(norm, denorm).u128()
}

/// An account's balance after `x` moved from `from` to `to`: debited when
/// it is the source, credited when it is the destination, and so unchanged
/// when it is both or neither.
pub open spec fn moved_balance(s: Seq<Entry>, from: u64, to: u64, x: u128, b: u64) -> int {
    crate::ledger::amount(s, b) - (if b == from {
        x as int
    } else {
        0
    }) + (if b == to {
        x as int
    } else {
        0
    })
}

/// Everything a successful transfer or send leaves untouched.
pub open spec fn only_balances_changed(pre: Contract, post: Contract) -> bool {
    &&& post.token == pre.token
    &&& post.ico == pre.ico
    &&& post.investors@ == pre.investors@
    &&& post.new_token_balances@ == pre.new_token_balances@
    &&& post.allowances@ == pre.allowances@
}

/// The exact contract of `execute_transfer`.
pub open spec fn transfer_post(
    pre: Contract,
    post: Contract,
    r: Result<Response, ContractError>,
    sender: u64,
    recipient: u64,
    amount: u128,
) -> bool {
    &&& (amount == 0 ==> r == Err::<Response, ContractError>(ContractError::InvalidZeroAmount)
        && same_state(post, pre))
    &&& (amount > 0 && pre.balances.spec_get(sender) < amount ==> r == Err::<
        Response,
        ContractError,
    >(ContractError::Underflow) && same_state(post, pre))
    &&& (r is Ok <==> amount > 0 && pre.balances.spec_get(sender) >= amount)
    &&& (r matches Ok(resp) ==> {
        &&& forall|b: u64|
            post.balances.spec_get(b) == moved_balance(pre.balances@, sender, recipient, amount, b)
        &&& post.balances.spec_total() == pre.balances.spec_total()
        &&& only_balances_changed(pre, post)
        &&& resp.attributes@ == seq![
            Attribute::Action(ActionKind::Transfer),
            Attribute::Sender(sender),
            Attribute::Recipient(recipient),
            Attribute::Amount(amount),
        ]
        &&& resp.messages@.len() == 0
    })
}

/// Move `amount` from the sender's balance to the recipient's.
///
/// Rejects a zero amount; fails with `Underflow`, changing nothing, when
/// the sender holds less than `amount`.  Succeeds exactly otherwise, and
/// the sum of all balances is unchanged.
pub fn execute_transfer(
    c: &mut Contract,
    sender: u64,
    recipient: u64,
    amount: u128,
) -> (r: Result<Response, ContractError>)
    requires
        old(c).wf(),
    ensures
        final(c).wf(),
        transfer_post(*old(c), *final(c), r, sender, recipient, amount),
{
    if amount == 0 {
        return Err(ContractError::InvalidZeroAmount);
    }
    let ok = c.balances.debit(sender, amount);
    if !ok {
        return Err(ContractError::Underflow);
    }
    proof {
        lemma_amount_le_total(c.balances@, 0, recipient);
    }
    c.balances.credit(recipient, amount);
    let mut attrs: Vec<Attribute> = Vec::new();
    attrs.push(Attribute::Action(ActionKind::Transfer));
    attrs.push(Attribute::Sender(sender));
    attrs.push(Attribute::Recipient(recipient));
    attrs.push(Attribute::Amount(amount));
    proof {
        assert(attrs@ =~= seq![
            Attribute::Action(ActionKind::Transfer),
            Attribute::Sender(sender),
            Attribute::Recipient(recipient),
            Attribute::Amount(amount),
        ]);
    }
    Ok(Response { messages: Vec::new(), attributes: attrs })
}

/// The exact contract of `execute_burn`.
pub open spec fn burn_post(
    pre: Contract,
    post: Contract,
    r: Result<Response, ContractError>,
    sender: u64,
    amount: u128,
) -> bool {
    &&& (amount == 0 ==> r == Err::<Response, ContractError>(ContractError::InvalidZeroAmount)
        && same_state(post, pre))
    &&& (amount > 0 && pre.balances.spec_get(sender) < amount ==> r == Err::<
        Response,
        ContractError,
    >(ContractError::Underflow) && same_state(post, pre))
    &&& (r is Ok <==> amount > 0 && pre.balances.spec_get(sender) >= amount)
    &&& (r matches Ok(resp) ==> {
        &&& forall|b: u64|
            post.balances.spec_get(b) == pre.balances.spec_get(b) - (if b == sender {
                amount as int
            } else {
                0
            })
        &&& post.balances.spec_total() == pre.balances.spec_total() - amount
        &&& post.token == (crate::state::TokenInfo {
            total_supply: (pre.token.total_supply - amount) as u128,
            ..pre.token
        })
        &&& post.ico == pre.ico
        &&& post.investors@ == pre.investors@
        &&& post.new_token_balances@ == pre.new_token_balances@
        &&& post.allowances@ == pre.allowances@
        &&& resp.attributes@ == seq![
            Attribute::Action(ActionKind::Burn),
            Attribute::Sender(sender),
            Attribute::Amount(amount),
        ]
        &&& resp.messages@.len() == 0
    })
}

/// Destroy `amount` from the sender's balance, lowering the total supply by
/// exactly that much.
///
/// Rejects a zero amount; fails with `Underflow`, changing nothing, when
/// the sender holds less than `amount`.  Succeeds exactly otherwise.  The
/// supply subtraction itself can never go negative: the sender's balance is
/// part of the sum that equals the supply.
pub fn execute_burn(c: &mut Contract, sender: u64, amount: u128) -> (r: Result<
    Response,
    ContractError,
>)
    requires
        old(c).wf(),
    ensures
        final(c).wf(),
        burn_post(*old(c), *final(c), r, sender, amount),
{
    if amount == 0 {
        return Err(ContractError::InvalidZeroAmount);
    }
    let ok = c.balances.debit(sender, amount);
    if !ok {
        return Err(ContractError::Underflow);
    }
    proof {
        lemma_total_from_nonneg(c.balances@, 0);
    }
    c.token.total_supply = c.token.total_supply - amount;
    let mut attrs: Vec<Attribute> = Vec::new();
    attrs.push(Attribute::Action(ActionKind::Burn));
    attrs.push(Attribute::Sender(sender));
    attrs.push(Attribute::Amount(amount));
    proof {
        assert(attrs@ =~= seq![
            Attribute::Action(ActionKind::Burn),
            Attribute::Sender(sender),
            Attribute::Amount(amount),
        ]);
    }
    Ok(Response { messages: Vec::new(), attributes: attrs })
}

/// Whether the sender is the configured minter.
pub open spec fn is_minter(pre: Contract, sender: u64) -> bool {
    match pre.token.mint {
        Some(m) => m.minter == sender,
        None => false,
    }
}

/// Whether minting `amount` would push the supply over a configured cap.
pub open spec fn exceeds_cap(pre: Contract, amount: u128) -> bool {
    match pre.token.spec_get_cap() {
        Some(cap) => pre.token.total_supply + amount > cap,
        None => false,
    }
}

/// The exact contract of `execute_mint`.
pub open spec fn mint_post(
    pre: Contract,
    post: Contract,
    r: Result<Response, ContractError>,
    sender: u64,
    recipient: u64,
    amount: u128,
) -> bool {
    &&& (amount == 0 ==> r == Err::<Response, ContractError>(ContractError::InvalidZeroAmount)
        && same_state(post, pre))
    &&& (amount > 0 && !is_minter(pre, sender) ==> r == Err::<Response, ContractError>(
        ContractError::Unauthorized,
    ) && same_state(post, pre))
    &&& (amount > 0 && is_minter(pre, sender) && exceeds_cap(pre, amount) ==> r == Err::<
        Response,
        ContractError,
    >(ContractError::CannotExceedCap) && same_state(post, pre))
    &&& (r is Ok <==> amount > 0 && is_minter(pre, sender) && !exceeds_cap(pre, amount))
    &&& (r matches Ok(resp) ==> {
        &&& forall|b: u64|
            post.balances.spec_get(b) == pre.balances.spec_get(b) + (if b == recipient {
                amount as int
            } else {
                0
            })
        &&& post.balances.spec_total() == pre.balances.spec_total() + amount
        &&& post.token == (crate::state::TokenInfo {
            total_supply: (pre.token.total_supply + amount) as u128,
            ..pre.token
        })
        &&& post.ico == pre.ico
        &&& post.investors@ == pre.investors@
        &&& post.new_token_balances@ == pre.new_token_balances@
        &&& post.allowances@ == pre.allowances@
        &&& resp.attributes@ == seq![
            Attribute::Action(ActionKind::Mint),
            Attribute::Recipient(recipient),
            Attribute::Amount(amount),
        ]
        &&& resp.messages@.len() == 0
    })
}

/// Create `amount` new tokens in the recipient's balance, raising the total
/// supply by exactly that much.
///
/// Only the configured minter may mint; a configured cap is enforced by
/// checking before anything is written, so a rejected mint changes nothing.
/// When no cap is set, only the width of the supply counter bounds the
/// mint, and the caller must stay within it.
pub fn execute_mint(c: &mut Contract, sender: u64, recipient: u64, amount: u128) -> (r: Result<
    Response,
    ContractError,
>)
    requires
        old(c).wf(),
        old(c).token.spec_get_cap() is None ==> old(c).token.total_supply + amount <= u128::MAX,
    ensures
        final(c).wf(),
        mint_post(*old(c), *final(c), r, sender, recipient, amount),
{
    if amount == 0 {
        return Err(ContractError::InvalidZeroAmount);
    }
    let authorized = match &c.token.mint {
        Some(m) => m.minter == sender,
        None => false,
    };
    if !authorized {
        return Err(ContractError::Unauthorized);
    }
    match c.token.get_cap() {
        Some(cap) => {
            if amount > cap - c.token.total_supply {
                return Err(ContractError::CannotExceedCap);
            }
        },
        None => {},
    }
    proof {
        lemma_amount_le_total(c.balances@, 0, recipient);
    }
    c.token.total_supply = c.token.total_supply + amount;
    c.balances.credit(recipient, amount);
    let mut attrs: Vec<Attribute> = Vec::new();
    attrs.push(Attribute::Action(ActionKind::Mint));
    attrs.push(Attribute::Recipient(recipient));
    attrs.push(Attribute::Amount(amount));
    proof {
        assert(attrs@ =~= seq![
            Attribute::Action(ActionKind::Mint),
            Attribute::Recipient(recipient),
            Attribute::Amount(amount),
        ]);
    }
    Ok(Response { messages: Vec::new(), attributes: attrs })
}

/// The exact contract of `execute_send`: the balance movement of a
/// transfer, plus exactly one queued notification for the target contract.
pub open spec fn send_post(
    pre: Contract,
    post: Contract,
    r: Result<Response, ContractError>,
    sender: u64,
    contract: u64,
    amount: u128,
    msg: Option<Vec<u8>>,
) -> bool {
    &&& (amount == 0 ==> r == Err::<Response, ContractError>(ContractError::InvalidZeroAmount)
        && same_state(post, pre))
    &&& (amount > 0 && pre.balances.spec_get(sender) < amount ==> r == Err::<
        Response,
        ContractError,
    >(ContractError::Underflow) && same_state(post, pre))
    &&& (r is Ok <==> amount > 0 && pre.balances.spec_get(sender) >= amount)
    &&& (r matches Ok(resp) ==> {
        &&& forall|b: u64|
            post.balances.spec_get(b) == moved_balance(pre.balances@, sender, contract, amount, b)
        &&& post.balances.spec_total() == pre.balances.spec_total()
        &&& only_balances_changed(pre, post)
        &&& resp.attributes@ == seq![
            Attribute::Action(ActionKind::Send),
            Attribute::Sender(sender),
            Attribute::Recipient(contract),
            Attribute::Amount(amount),
        ]
        &&& resp.messages@.len() == 1
        &&& resp.messages@[0].contract == contract
        &&& resp.messages@[0].sender == sender
        &&& resp.messages@[0].amount == amount
        &&& resp.messages@[0].msg == msg
    })
}

/// Move `amount` from the sender's balance to the target contract's, and
/// queue one notification carrying the sender, the amount and the opaque
/// payload.  The notification is fire-and-forget: queued as request output,
/// never executed here.
pub fn execute_send(
    c: &mut Contract,
    sender: u64,
    contract: u64,
    amount: u128,
    msg: Option<Vec<u8>>,
) -> (r: Result<Response, ContractError>)
    requires
        old(c).wf(),
    ensures
        final(c).wf(),
        send_post(*old(c), *final(c), r, sender, contract, amount, msg),
{
    if amount == 0 {
        return Err(ContractError::InvalidZeroAmount);
    }
    let ok = c.balances.debit(sender, amount);
    if !ok {
        return Err(ContractError::Underflow);
    }
    proof {
        lemma_amount_le_total(c.balances@, 0, contract);
    }
    c.balances.credit(contract, amount);
    let mut attrs: Vec<Attribute> = Vec::new();
    attrs.push(Attribute::Action(ActionKind::Send));
    attrs.push(Attribute::Sender(sender));
    attrs.push(Attribute::Recipient(contract));
    attrs.push(Attribute::Amount(amount));
    proof {
        assert(attrs@ =~= seq![
            Attribute::Action(ActionKind::Send),
            Attribute::Sender(sender),
            Attribute::Recipient(contract),
            Attribute::Amount(amount),
        ]);
    }
    let mut messages: Vec<crate::msg::ReceiveNotice> = Vec::new();
    messages.push(crate::msg::ReceiveNotice { contract, sender, amount, msg });
    Ok(Response { messages, attributes: attrs })
}

/// How much of a requested investment the campaign still takes: the whole
/// request while the gap to the target allows it, otherwise just the gap.
pub open spec fn invest_accept(pre: Contract, amount: u128) -> int {
    let gap = pre.ico.target_amount - pre.ico.raised_amount;
    if amount as int <= gap {
        amount as int
    } else {
        gap
    }
}

/// The exact contract of `execute_invest_ico`.
pub open spec fn invest_post(
    pre: Contract,
    post: Contract,
    r: Result<Response, ContractError>,
    sender: u64,
    ico: u64,
    amount: u128,
) -> bool {
    let accept = invest_accept(pre, amount);
    let owner = pre.ico.owner;
    &&& (amount == 0 ==> r == Err::<Response, ContractError>(ContractError::InvalidZeroAmount)
        && same_state(post, pre))
    &&& (amount > 0 && ico != owner ==> r == Err::<Response, ContractError>(
        ContractError::WrongIcoAddress,
    ) && same_state(post, pre))
    &&& (amount > 0 && ico == owner && pre.ico.state != IcoState::Open ==> r == Err::<
        Response,
        ContractError,
    >(ContractError::IcoClosed) && same_state(post, pre))
    &&& (amount > 0 && ico == owner && pre.ico.state == IcoState::Open
        && pre.balances.spec_get(sender) < accept ==> r == Err::<Response, ContractError>(
        ContractError::Underflow,
    ) && same_state(post, pre))
    &&& (r is Ok <==> amount > 0 && ico == owner && pre.ico.state == IcoState::Open
        && pre.balances.spec_get(sender) >= accept)
    &&& (r matches Ok(resp) ==> {
        &&& post.ico == (crate::state::IcoInfo {
            raised_amount: (pre.ico.raised_amount + accept) as u128,
            state: if pre.ico.raised_amount + accept == pre.ico.target_amount {
                IcoState::Funded
            } else {
                IcoState::Open
            },
            ..pre.ico
        })
        &&& forall|b: u64|
            post.balances.spec_get(b) == moved_balance(
                pre.balances@,
                sender,
                owner,
                accept as u128,
                b,
            )
        &&& post.balances.spec_total() == pre.balances.spec_total()
        &&& forall|b: u64|
            post.investors.spec_get(b) == pre.investors.spec_get(b) + (if b == sender {
                accept
            } else {
                0
            })
        &&& total(post.investors@) == total(pre.investors@) + accept
        &&& post.token == pre.token
        &&& post.new_token_balances@ == pre.new_token_balances@
        &&& post.allowances@ == pre.allowances@
        &&& resp.attributes@ == seq![
            Attribute::Action(ActionKind::IcoInvestment),
            Attribute::Sender(sender),
            Attribute::Recipient(ico),
            Attribute::Amount(accept as u128),
        ]
        &&& resp.messages@.len() == 0
    })
}

/// Invest into the campaign: move the accepted amount from the investor's
/// balance into the owner's (the escrow), raise `raised_amount` by it, and
/// record it against the investor for a possible refund.
///
/// Only what the campaign can still take is charged; any excess stays in
/// the investor's balance.  A request that fills the gap exactly leaves the
/// campaign `Funded` and eligible for closing — closing stays a separate,
/// explicit action.  Valid only while the campaign is `Open`.
pub fn execute_invest_ico(c: &mut Contract, sender: u64, ico: u64, amount: u128) -> (r: Result<
    Response,
    ContractError,
>)
    requires
        old(c).wf(),
    ensures
        final(c).wf(),
        invest_post(*old(c), *final(c), r, sender, ico, amount),
{
    if amount == 0 {
        return Err(ContractError::InvalidZeroAmount);
    }
    if ico != c.ico.owner {
        return Err(ContractError::WrongIcoAddress);
    }
    let open_now = match c.ico.state {
        IcoState::Open => true,
        _ => false,
    };
    if !open_now {
        return Err(ContractError::IcoClosed);
    }
    let gap = c.ico.target_amount - c.ico.raised_amount;
    let accept = if amount <= gap {
        amount
    } else {
        gap
    };
    let ok = c.balances.debit(sender, accept);
    if !ok {
        return Err(ContractError::Underflow);
    }
    proof {
        lemma_amount_le_total(c.balances@, 0, c.ico.owner);
    }
    let owner = c.ico.owner;
    c.balances.credit(owner, accept);
    proof {
        lemma_amount_le_total(c.investors@, 0, sender);
    }
    c.investors.credit(sender, accept);
    c.ico.raised_amount = c.ico.raised_amount + accept;
    if c.ico.raised_amount == c.ico.target_amount {
        c.ico.state = IcoState::Funded;
    }
    let mut attrs: Vec<Attribute> = Vec::new();
    attrs.push(Attribute::Action(ActionKind::IcoInvestment));
    attrs.push(Attribute::Sender(sender));
    attrs.push(Attribute::Recipient(ico));
    attrs.push(Attribute::Amount(accept));
    proof {
        assert(attrs@ =~= seq![
            Attribute::Action(ActionKind::IcoInvestment),
            Attribute::Sender(sender),
            Attribute::Recipient(ico),
            Attribute::Amount(accept),
        ]);
    }
    Ok(Response { messages: Vec::new(), attributes: attrs })
}

/// New tokens for an invested amount: multiply by the ratio's numerator,
/// divide by its denominator, truncating.
pub open spec fn alloc_amount(invested: int, norm: u128, denorm: u128) -> int {
    invested * norm as int / denorm as int
}

/// Sum of the allocations of the entries from position `j` on.
pub open spec fn alloc_total_from(s: Seq<Entry>, j: int, norm: u128, denorm: u128) -> int
    decreases s.len() - j,
{
    if j < 0 || j >= s.len() {
        0
    } else {
        alloc_amount(s[j].1 as int, norm, denorm) + alloc_total_from(s, j + 1, norm, denorm)
    }
}

/// Every single investor's allocation fits the 128-bit result width.
pub open spec fn allocs_fit(s: Seq<Entry>, norm: u128, denorm: u128) -> bool {
    forall|j: int|
        0 <= j < s.len() ==> alloc_amount((#[trigger] s[j]).1 as int, norm, denorm) <= u128::MAX
}

/// Division by a positive denominator is superadditive: the floors of the
/// parts never exceed the floor of the whole.
proof fn lemma_div_superadditive(x: int, y: int, d: int)
    requires
        d > 0,
        x >= 0,
        y >= 0,
    ensures
        x / d + y / d <= (x + y) / d,
{
    let q1: int = x / d;
    let r1: int = x % d;
    let q2: int = y / d;
    let r2: int = y % d;
    vstd::arithmetic::div_mod::lemma_fundamental_div_mod(x, d);
    vstd::arithmetic::div_mod::lemma_fundamental_div_mod(y, d);
    vstd::arithmetic::div_mod::lemma_mod_pos_bound(x, d);
    vstd::arithmetic::div_mod::lemma_mod_pos_bound(y, d);
    vstd::arithmetic::mul::lemma_mul_is_distributive_add_other_way(d, q1, q2);
    vstd::arithmetic::mul::lemma_mul_is_commutative(q1 + q2, d);
    if r1 + r2 < d {
        vstd::arithmetic::div_mod::lemma_fundamental_div_mod_converse_div(
            x + y,
            d,
            q1 + q2,
            r1 + r2,
        );
    } else {
        vstd::arithmetic::mul::lemma_mul_is_distributive_add_other_way(d, q1 + q2, 1);
        vstd::arithmetic::mul::lemma_mul_is_commutative(q1 + q2 + 1, d);
        vstd::arithmetic::div_mod::lemma_fundamental_div_mod_converse_div(
            x + y,
            d,
            q1 + q2 + 1,
            r1 + r2 - d,
        );
    }
}

/// Nothing allocates to zero: a zero investment yields zero new tokens.
proof fn lemma_alloc_zero(norm: u128, denorm: u128)
    requires
        denorm > 0,
    ensures
        alloc_amount(0, norm, denorm) == 0,
{
    vstd::arithmetic::div_mod::lemma_div_basics(denorm as int);
}

/// Summed across investors, the allocations never exceed the ratio applied
/// to the invested total.
pub proof fn lemma_alloc_total_le(s: Seq<Entry>, j: int, norm: u128, denorm: u128)
    requires
        denorm > 0,
    ensures
        0 <= alloc_total_from(s, j, norm, denorm),
        alloc_total_from(s, j, norm, denorm) <= total_from(s, j) * norm as int / denorm as int,
    decreases s.len() - j,
{
    if j < 0 || j >= s.len() {
        vstd::arithmetic::div_mod::lemma_div_basics(denorm as int);
    } else {
        lemma_alloc_total_le(s, j + 1, norm, denorm);
        lemma_total_from_nonneg(s, j + 1);
        vstd::arithmetic::mul::lemma_mul_nonnegative(s[j].1 as int, norm as int);
        vstd::arithmetic::mul::lemma_mul_nonnegative(total_from(s, j + 1), norm as int);
        vstd::arithmetic::div_mod::lemma_div_pos_is_pos(s[j].1 as int * norm as int, denorm as int);
        lemma_div_superadditive(
            s[j].1 as int * norm as int,
            total_from(s, j + 1) * norm as int,
            denorm as int,
        );
        vstd::arithmetic::mul::lemma_mul_is_distributive_add_other_way(
            norm as int,
            s[j].1 as int,
            total_from(s, j + 1),
        );
        vstd::arithmetic::mul::lemma_mul_is_commutative(norm as int, s[j].1 as int);
        vstd::arithmetic::mul::lemma_mul_is_commutative(norm as int, total_from(s, j + 1));
        vstd::arithmetic::mul::lemma_mul_is_commutative(norm as int, total_from(s, j));
    }
}

/// What a completed allocation did to the state: each investor's new-token
/// credit is exactly the ratio applied to their cumulative investment,
/// truncating; everything else stands.
pub open spec fn allocate_effect(pre: Contract, post: Contract) -> bool {
    &&& post.ico == (crate::state::IcoInfo { state: IcoState::Allocated, ..pre.ico })
    &&& forall|b: u64|
        post.new_token_balances.spec_get(b) == alloc_amount(
            pre.investors.spec_get(b) as int,
            pre.ico.conversion_ratio_norm,
            pre.ico.conversion_ratio_denorm,
        )
    &&& total(post.new_token_balances@) <= pre.ico.target_amount as int
        * pre.ico.conversion_ratio_norm as int / pre.ico.conversion_ratio_denorm as int
    &&& post.balances@ == pre.balances@
    &&& post.investors@ == pre.investors@
    &&& post.token == pre.token
    &&& post.allowances@ == pre.allowances@
}

/// Distribute the new token over a fully funded campaign: each investor is
/// credited `invested * ratio_norm / ratio_denorm`, truncating, into the
/// separate new-token balance namespace.  Invoked by `execute_close_ico`;
/// it is not dispatched as an operation of its own.
///
/// Summed over all investors the credits stay at or below the ratio applied
/// to the target amount.
pub fn allocate_tokens(c: &mut Contract) -> (r: Result<Response, ContractError>)
    requires
        old(c).wf(),
        old(c).ico.state == IcoState::Funded,
        allocs_fit(
            old(c).investors@,
            old(c).ico.conversion_ratio_norm,
            old(c).ico.conversion_ratio_denorm,
        ),
    ensures
        final(c).wf(),
        r is Ok,
        allocate_effect(*old(c), *final(c)),
        r matches Ok(resp) ==> resp.attributes@.len() == 0 && resp.messages@.len() == 0,
{
    let norm = c.ico.conversion_ratio_norm;
    let denorm = c.ico.conversion_ratio_denorm;
    let n = c.investors.len();
    let ghost s = c.investors@;
    proof {
        assert forall|b: u64| crate::ledger::amount(c.new_token_balances@, b) == 0 by {
            lemma_amount_le_total(c.new_token_balances@, 0, b);
        }
        lemma_alloc_zero(norm, denorm);
    }
    let ghost t0 = c.new_token_balances@;
    let mut i: usize = 0;
    while i < n
        invariant
            old(c).wf(),
            c.investors@ == s,
            s == old(c).investors@,
            c.balances@ == old(c).balances@,
            c.token == old(c).token,
            c.ico == old(c).ico,
            c.allowances@ == old(c).allowances@,
            norm == old(c).ico.conversion_ratio_norm,
            denorm == old(c).ico.conversion_ratio_denorm,
            denorm > 0,
            allocs_fit(s, norm, denorm),
            n == s.len(),
            i <= n,
            c.new_token_balances.wf(),
            forall|b: u64|
                crate::ledger::amount(c.new_token_balances@, b) as int == alloc_amount(
                    crate::ledger::amount(s, b) as int - crate::ledger::amount_from(
                        s,
                        i as int,
                        b,
                    ) as int,
                    norm,
                    denorm,
                ),
            total(c.new_token_balances@) == alloc_total_from(s, 0, norm, denorm)
                - alloc_total_from(s, i as int, norm, denorm),
        decreases n - i,
    {
        let e = c.investors.entry_at(i);
        proof {
            assert(alloc_amount(e.1 as int, norm, denorm) <= u128::MAX);
            lemma_amount_at_key(s, 0, i as int, e.0);
            assert forall|k: int| i as int + 1 <= k < s.len() implies s[k].0 != e.0 by {
                crate::ledger::lemma_sorted_unique(s, i as int, k);
            }
            crate::ledger::lemma_amount_absent(s, i as int + 1, e.0);
            lemma_alloc_zero(norm, denorm);
            vstd::arithmetic::mul::lemma_mul_nonnegative(e.1 as int, norm as int);
            vstd::arithmetic::div_mod::lemma_div_pos_is_pos(e.1 as int * norm as int, denorm as int);
        }
        let asset = multiply_ratio(e.1, norm, denorm);
        c.new_token_balances.credit(e.0, asset);
        proof {
            assert forall|b: u64|
                crate::ledger::amount(c.new_token_balances@, b) as int == alloc_amount(
                    crate::ledger::amount(s, b) as int - crate::ledger::amount_from(
                        s,
                        i as int + 1,
                        b,
                    ) as int,
                    norm,
                    denorm,
                ) by {
                if b != e.0 {
                    assert(crate::ledger::amount_from(s, i as int, b) == crate::ledger::amount_from(
                        s,
                        i as int + 1,
                        b,
                    ));
                }
            }
        }
        i = i + 1;
    }
    c.ico.state = IcoState::Allocated;
    proof {
        lemma_alloc_total_le(s, 0, norm, denorm);
        lemma_total_from_nonneg(s, 0);
    }
    Ok(Response::empty())
}

/// What investors other than the owner put in, in sum: exactly what an
/// emergency refund must take back out of the owner's balance.
pub open spec fn refund_need(pre: Contract) -> int {
    crate::ledger::total_except(pre.investors@, pre.ico.owner)
}

/// Whether the campaign is still in a state a `close` may act on, called by
/// its owner.
pub open spec fn close_allowed(pre: Contract, sender: u64) -> bool {
    &&& sender == pre.ico.owner
    &&& (pre.ico.state == IcoState::Open || pre.ico.state == IcoState::Funded)
}

/// What a completed emergency refund did to the state: every investor got
/// their cumulative investment back out of the owner's balance; the
/// investor ledger itself is kept, and the campaign is terminally
/// `Refunded`.
pub open spec fn refund_effect(pre: Contract, post: Contract) -> bool {
    let owner = pre.ico.owner;
    &&& post.ico == (crate::state::IcoInfo { state: IcoState::Refunded, ..pre.ico })
    &&& forall|b: u64|
        b != owner ==> post.balances.spec_get(b) == pre.balances.spec_get(b)
            + pre.investors.spec_get(b)
    &&& post.balances.spec_get(owner) == pre.balances.spec_get(owner) - refund_need(pre)
    &&& post.balances.spec_total() == pre.balances.spec_total()
    &&& post.new_token_balances@ == pre.new_token_balances@
    &&& post.investors@ == pre.investors@
    &&& post.token == pre.token
    &&& post.allowances@ == pre.allowances@
}

/// The exact contract of `execute_close_ico`.
pub open spec fn close_post(
    pre: Contract,
    post: Contract,
    r: Result<Response, ContractError>,
    sender: u64,
) -> bool {
    let owner = pre.ico.owner;
    &&& (sender != owner ==> r == Err::<Response, ContractError>(ContractError::Unauthorized)
        && same_state(post, pre))
    &&& (sender == owner && (pre.ico.state == IcoState::Allocated || pre.ico.state
        == IcoState::Refunded) ==> r == Err::<Response, ContractError>(ContractError::IcoClosed)
        && same_state(post, pre))
    &&& (close_allowed(pre, sender) && pre.ico.raised_amount < pre.ico.target_amount
        && pre.balances.spec_get(owner) < refund_need(pre) ==> r == Err::<
        Response,
        ContractError,
    >(ContractError::Underflow) && same_state(post, pre))
    &&& (r is Ok <==> close_allowed(pre, sender) && (pre.ico.raised_amount
        < pre.ico.target_amount ==> pre.balances.spec_get(owner) >= refund_need(pre)))
    &&& (r is Ok && pre.ico.raised_amount < pre.ico.target_amount ==> refund_effect(pre, post))
    &&& (r is Ok && pre.ico.raised_amount == pre.ico.target_amount ==> allocate_effect(pre, post))
    &&& (r matches Ok(resp) ==> resp.attributes@.len() == 0 && resp.messages@.len() == 0)
}

/// Close the campaign.  Only its owner may; a campaign already allocated or
/// refunded is rejected, so neither terminal path can run twice.
///
/// When the target was not reached this is the emergency unwind: every
/// recorded investment is returned to its investor and taken back out of
/// the owner's balance, in ascending investor order, all or nothing — if
/// the owner's balance cannot cover the escrowed sum (the owner spent it),
/// the whole close fails with `Underflow` and nothing moves.  When the
/// target was reached, the new token is distributed instead.
pub fn execute_close_ico(c: &mut Contract, sender: u64) -> (r: Result<Response, ContractError>)
    requires
        old(c).wf(),
        sender == old(c).ico.owner && old(c).ico.state == IcoState::Funded ==> allocs_fit(
            old(c).investors@,
            old(c).ico.conversion_ratio_norm,
            old(c).ico.conversion_ratio_denorm,
        ),
    ensures
        final(c).wf(),
        close_post(*old(c), *final(c), r, sender),
{
    if sender != c.ico.owner {
        return Err(ContractError::Unauthorized);
    }
    let terminal = match c.ico.state {
        IcoState::Allocated => true,
        IcoState::Refunded => true,
        _ => false,
    };
    if terminal {
        return Err(ContractError::IcoClosed);
    }
    if c.ico.raised_amount < c.ico.target_amount {
        // The target was missed: reverse every escrowed investment.
        let owner = c.ico.owner;
        let n = c.investors.len();
        let ghost s = c.investors@;
        let ghost w0 = c.balances@;
        proof {
            crate::ledger::lemma_total_except(s, 0, owner);
        }
        let mut need: u128 = 0;
        let mut i: usize = 0;
        while i < n
            invariant
                old(c).wf(),
                *c == *old(c),
                s == old(c).investors@,
                owner == old(c).ico.owner,
                n == s.len(),
                i <= n,
                need as int == crate::ledger::total_except(s, owner)
                    - crate::ledger::total_except_from(s, i as int, owner),
                crate::ledger::total_except(s, owner) <= total(s),
            decreases n - i,
        {
            let e = c.investors.entry_at(i);
            proof {
                crate::ledger::lemma_total_except_nonneg(s, i as int + 1, owner);
            }
            if e.0 != owner {
                need = need + e.1;
            }
            i = i + 1;
        }
        let ob = c.balances.get(owner);
        if ob < need {
            return Err(ContractError::Underflow);
        }
        let mut i: usize = 0;
        while i < n
            invariant
                old(c).wf(),
                c.investors@ == s,
                s == old(c).investors@,
                owner == old(c).ico.owner,
                c.token == old(c).token,
                c.ico == old(c).ico,
                c.new_token_balances@ == old(c).new_token_balances@,
                c.allowances@ == old(c).allowances@,
                w0 == old(c).balances@,
                n == s.len(),
                i <= n,
                c.balances.wf(),
                total(c.balances@) == total(w0),
                need as int == crate::ledger::total_except(s, owner),
                crate::ledger::amount(w0, owner) >= need,
                crate::ledger::amount(c.balances@, owner) as int == crate::ledger::amount(w0, owner)
                    - (crate::ledger::total_except(s, owner) - crate::ledger::total_except_from(
                    s,
                    i as int,
                    owner,
                )),
                forall|b: u64|
                    b != owner ==> crate::ledger::amount(c.balances@, b) as int
                        == crate::ledger::amount(w0, b) + (crate::ledger::amount(s, b) as int
                        - crate::ledger::amount_from(s, i as int, b) as int),
            decreases n - i,
        {
            let e = c.investors.entry_at(i);
            proof {
                crate::ledger::lemma_total_except_nonneg(s, i as int + 1, owner);
            }
            if e.0 != owner {
                let ok = c.balances.debit(owner, e.1);
                assert(ok);
                proof {
                    lemma_amount_le_total(c.balances@, 0, e.0);
                }
                c.balances.credit(e.0, e.1);
                proof {
                    lemma_amount_at_key(s, 0, i as int, e.0);
                    assert forall|k: int| i as int + 1 <= k < s.len() implies s[k].0 != e.0 by {
                        crate::ledger::lemma_sorted_unique(s, i as int, k);
                    }
                    crate::ledger::lemma_amount_absent(s, i as int + 1, e.0);
                }
            }
            i = i + 1;
        }
        c.ico.state = IcoState::Refunded;
        Ok(Response::empty())
    } else {
        // The target was reached exactly: distribute the new token.
        allocate_tokens(c)
    }
}

/// Fold a genesis balance list into a ledger, and return the ledger with
/// the computed total supply.  Amounts of a repeated account accumulate, so
/// the ledger's sum always equals the computed supply.
pub fn create_accounts(accounts: &Vec<(u64, u128)>) -> (r: (crate::ledger::Ledger, u128))
    requires
        total(accounts@) <= u128::MAX,
    ensures
        r.0.wf(),
        r.1 as int == total(accounts@),
        total(r.0@) == total(accounts@),
        forall|b: u64| r.0.spec_get(b) as int == crate::ledger::key_total(accounts@, b),
{
    let mut led = crate::ledger::Ledger::new();
    let mut sum: u128 = 0;
    let n = accounts.len();
    let mut i: usize = 0;
    while i < n
        invariant
            total(accounts@) <= u128::MAX,
            n == accounts@.len(),
            i <= n,
            led.wf(),
            sum as int == total(accounts@) - total_from(accounts@, i as int),
            total(led@) == sum as int,
            forall|b: u64|
                crate::ledger::amount(led@, b) as int == crate::ledger::key_total(accounts@, b)
                    - crate::ledger::key_total_from(accounts@, i as int, b),
        decreases n - i,
    {
        let e = accounts[i];
        proof {
            lemma_total_from_nonneg(accounts@, i as int + 1);
            lemma_amount_le_total(led@, 0, e.0);
        }
        led.credit(e.0, e.1);
        sum = sum + e.1;
        i = i + 1;
    }
    (led, sum)
}

/// Whether the genesis supply breaks a configured mint cap.
pub open spec fn genesis_over_cap(msg: InstantiateMsg) -> bool {
    match msg.mint {
        Some(m) => match m.cap {
            Some(cap) => total(msg.initial_balances@) > cap,
            None => false,
        },
        None => false,
    }
}

/// Build the initial contract state from a genesis message.
///
/// The genesis balance list becomes the ledger and its sum the total
/// supply.  Initialization fails fatally, creating nothing, when the supply
/// breaks a configured cap, when the campaign target exceeds the supply, or
/// when the conversion ratio's denominator is zero; the checks run in that
/// order.  A zero target starts the campaign `Funded`, anything else
/// `Open`.
pub fn instantiate(msg: InstantiateMsg) -> (r: Result<Contract, InstantiateError>)
    requires
        total(msg.initial_balances@) <= u128::MAX,
    ensures
        ({
            let supply = total(msg.initial_balances@);
            &&& (genesis_over_cap(msg) ==> r == Err::<Contract, InstantiateError>(
                InstantiateError::SupplyExceedsCap,
            ))
            &&& (!genesis_over_cap(msg) && msg.target_amount > supply ==> r == Err::<
                Contract,
                InstantiateError,
            >(InstantiateError::TargetExceedsSupply))
            &&& (!genesis_over_cap(msg) && msg.target_amount <= supply
                && msg.conversion_ratio_denorm == 0 ==> r == Err::<Contract, InstantiateError>(
                InstantiateError::InvalidRatio,
            ))
            &&& (r is Ok <==> !genesis_over_cap(msg) && msg.target_amount <= supply
                && msg.conversion_ratio_denorm > 0)
            &&& (r matches Ok(c) ==> {
                &&& c.wf()
                &&& c.token == (crate::state::TokenInfo {
                    name: msg.name,
                    symbol: msg.symbol,
                    decimals: msg.decimals,
                    total_supply: supply as u128,
                    mint: msg.mint,
                })
                &&& c.ico == (crate::state::IcoInfo {
                    owner: msg.owner,
                    target_amount: msg.target_amount,
                    raised_amount: 0,
                    conversion_ratio_norm: msg.conversion_ratio_norm,
                    conversion_ratio_denorm: msg.conversion_ratio_denorm,
                    state: if msg.target_amount == 0 {
                        IcoState::Funded
                    } else {
                        IcoState::Open
                    },
                })
                &&& forall|b: u64|
                    c.balances.spec_get(b) as int == crate::ledger::key_total(
                        msg.initial_balances@,
                        b,
                    )
                &&& total(c.balances@) == supply
                &&& c.investors@.len() == 0
                &&& c.new_token_balances@.len() == 0
                &&& c.allowances@.len() == 0
            })
        }),
{
    let (balances, supply) = create_accounts(&msg.initial_balances);
    let over_cap = match &msg.mint {
        Some(m) => match m.cap {
            Some(cap) => supply > cap,
            None => false,
        },
        None => false,
    };
    if over_cap {
        return Err(InstantiateError::SupplyExceedsCap);
    }
    if msg.target_amount > supply {
        return Err(InstantiateError::TargetExceedsSupply);
    }
    if msg.conversion_ratio_denorm == 0 {
        return Err(InstantiateError::InvalidRatio);
    }
    let token = crate::state::TokenInfo {
        name: msg.name,
        symbol: msg.symbol,
        decimals: msg.decimals,
        total_supply: supply,
        mint: msg.mint,
    };
    let ico = crate::state::IcoInfo {
        owner: msg.owner,
        target_amount: msg.target_amount,
        raised_amount: 0,
        conversion_ratio_norm: msg.conversion_ratio_norm,
        conversion_ratio_denorm: msg.conversion_ratio_denorm,
        state: if msg.target_amount == 0 {
            IcoState::Funded
        } else {
            IcoState::Open
        },
    };
    let c = Contract {
        token,
        ico,
        balances,
        new_token_balances: crate::ledger::Ledger::new(),
        investors: crate::ledger::Ledger::new(),
        allowances: crate::allowances::Allowances::new(),
    };
    Ok(c)
}

/// The balance held by an account; absent means zero, never an error.
pub fn query_balance(c: &Contract, address: u64) -> (r: crate::msg::BalanceResponse)
    ensures
        r.balance == c.balances.spec_get(address),
{
    crate::msg::BalanceResponse { balance: c.balances.get(address) }
}

/// The token metadata.
pub fn query_token_info(c: &Contract) -> (r: crate::msg::TokenInfoResponse)
    ensures
        r.name == c.token.name,
        r.symbol == c.token.symbol,
        r.decimals == c.token.decimals,
        r.total_supply == c.token.total_supply,
{
    crate::msg::TokenInfoResponse {
        name: c.token.name.clone(),
        symbol: c.token.symbol.clone(),
        decimals: c.token.decimals,
        total_supply: c.token.total_supply,
    }
}

/// The configured minter and cap, when one is set.
pub fn query_minter(c: &Contract) -> (r: Option<crate::msg::MinterResponse>)
    ensures
        r == match c.token.mint {
            Some(m) => Some(crate::msg::MinterResponse { minter: m.minter, cap: m.cap }),
            None => None::<crate::msg::MinterResponse>,
        },
{
    match &c.token.mint {
        Some(m) => Some(crate::msg::MinterResponse { minter: m.minter, cap: m.cap }),
        None => None,
    }
}

/// The stored allowance record for (owner, spender), as it stands; an
/// absent pair reads as zero that never expires.
pub fn query_allowance(c: &Contract, owner: u64, spender: u64) -> (r: crate::msg::AllowanceResponse)
    requires
        c.wf(),
    ensures
        r.allowance == c.allowances.spec_get(owner, spender).amount,
        r.expires == c.allowances.spec_get(owner, spender).expires,
{
    let v = c.allowances.get(owner, spender);
    crate::msg::AllowanceResponse { allowance: v.amount, expires: v.expires }
}

/// Pagination: no limit given means 10 rows, and no more than 30 are ever
/// returned.
pub open spec fn page_limit(limit: Option<u32>) -> int {
    let l: int = match limit {
        Some(v) => v as int,
        None => 10,
    };
    if l <= 30 {
        l
    } else {
        30
    }
}

/// The page of account identifiers that enumeration returns: ascending key
/// order, starting strictly after the cursor, at most `l` of them.
pub open spec fn accounts_page_from(s: Seq<Entry>, j: int, after: Option<u64>, l: int) -> Seq<u64>
    decreases s.len() - j,
{
    if j < 0 || j >= s.len() || l <= 0 {
        Seq::empty()
    } else if (match after {
        Some(a) => s[j].0 <= a,
        None => false,
    }) {
        accounts_page_from(s, j + 1, after, l)
    } else {
        seq![s[j].0] + accounts_page_from(s, j + 1, after, l - 1)
    }
}

/// Enumerate the accounts that hold a balance entry, in ascending
/// identifier order, starting strictly after the cursor, at most the page
/// limit of them.
pub fn query_all_accounts(c: &Contract, start_after: Option<u64>, limit: Option<u32>) -> (r: Vec<
    u64,
>)
    ensures
        r@ == accounts_page_from(c.balances@, 0, start_after, page_limit(limit)),
{
    let l: usize = match limit {
        Some(v) => {
            if v <= 30 {
                v as usize
            } else {
                30
            }
        },
        None => 10,
    };
    let ghost s = c.balances@;
    let n = c.balances.len();
    let mut out: Vec<u64> = Vec::new();
    let mut i: usize = 0;
    while i < n
        invariant
            s == c.balances@,
            n == s.len(),
            i <= n,
            out@.len() <= l,
            l == page_limit(limit),
            accounts_page_from(s, 0, start_after, l as int) == out@ + accounts_page_from(
                s,
                i as int,
                start_after,
                l - out@.len(),
            ),
        decreases n - i,
    {
        if out.len() == l {
            proof {
                assert(accounts_page_from(s, i as int, start_after, 0) =~= Seq::<u64>::empty());
                assert(accounts_page_from(s, 0, start_after, l as int) =~= out@);
            }
            return out;
        }
        let e = c.balances.entry_at(i);
        let skip = match start_after {
            Some(a) => e.0 <= a,
            None => false,
        };
        if !skip {
            let ghost out0 = out@;
            out.push(e.0);
            proof {
                assert(accounts_page_from(s, i as int, start_after, l - out0.len()) =~= seq![e.0]
                    + accounts_page_from(s, i as int + 1, start_after, l - out0.len() - 1));
                assert(out0 + (seq![e.0] + accounts_page_from(
                    s,
                    i as int + 1,
                    start_after,
                    l - out@.len(),
                )) =~= out@ + accounts_page_from(s, i as int + 1, start_after, l - out@.len()));
            }
        }
        i = i + 1;
    }
    proof {
        assert(accounts_page_from(s, n as int, start_after, l - out@.len()) =~= Seq::<
            u64,
        >::empty());
        assert(accounts_page_from(s, 0, start_after, l as int) =~= out@);
    }
    out
}

/// The page of allowance rows that enumeration returns for one owner:
/// ascending spender order, starting strictly after the cursor, at most `l`
/// of them.
pub open spec fn allowances_page_from(
    s: Seq<crate::allowances::AllowEntry>,
    j: int,
    owner: u64,
    after: Option<u64>,
    l: int,
) -> Seq<crate::msg::AllowanceInfo>
    decreases s.len() - j,
{
    if j < 0 || j >= s.len() || l <= 0 {
        Seq::empty()
    } else if s[j].0.0 != owner || (match after {
        Some(a) => s[j].0.1 <= a,
        None => false,
    }) {
        allowances_page_from(s, j + 1, owner, after, l)
    } else {
        seq![
            crate::msg::AllowanceInfo {
                spender: s[j].0.1,
                allowance: s[j].1.amount,
                expires: s[j].1.expires,
            },
        ] + allowances_page_from(s, j + 1, owner, after, l - 1)
    }
}

/// Enumerate one owner's allowances, in ascending spender order, starting
/// strictly after the cursor, at most the page limit of them.
pub fn query_all_allowances(
    c: &Contract,
    owner: u64,
    start_after: Option<u64>,
    limit: Option<u32>,
) -> (r: Vec<crate::msg::AllowanceInfo>)
    ensures
        r@ == allowances_page_from(c.allowances@, 0, owner, start_after, page_limit(limit)),
{
    let l: usize = match limit {
        Some(v) => {
            if v <= 30 {
                v as usize
            } else {
                30
            }
        },
        None => 10,
    };
    let ghost s = c.allowances@;
    let n = c.allowances.len();
    let mut out: Vec<crate::msg::AllowanceInfo> = Vec::new();
    let mut i: usize = 0;
    while i < n
        invariant
            s == c.allowances@,
            n == s.len(),
            i <= n,
            out@.len() <= l,
            l == page_limit(limit),
            allowances_page_from(s, 0, owner, start_after, l as int) == out@
                + allowances_page_from(s, i as int, owner, start_after, l - out@.len()),
        decreases n - i,
    {
        if out.len() == l {
            proof {
                assert(allowances_page_from(s, i as int, owner, start_after, 0) =~= Seq::<
                    crate::msg::AllowanceInfo,
                >::empty());
                assert(allowances_page_from(s, 0, owner, start_after, l as int) =~= out@);
            }
            return out;
        }
        let e = c.allowances.entry_at(i);
        let skip = e.0.0 != owner || (match start_after {
            Some(a) => e.0.1 <= a,
            None => false,
        });
        if !skip {
            let row = crate::msg::AllowanceInfo {
                spender: e.0.1,
                allowance: e.1.amount,
                expires: e.1.expires,
            };
            let ghost out0 = out@;
            out.push(row);
            proof {
                assert(allowances_page_from(s, i as int, owner, start_after, l - out0.len())
                    =~= seq![row] + allowances_page_from(
                    s,
                    i as int + 1,
                    owner,
                    start_after,
                    l - out0.len() - 1,
                ));
                assert(out0 + (seq![row] + allowances_page_from(
                    s,
                    i as int + 1,
                    owner,
                    start_after,
                    l - out@.len(),
                )) =~= out@ + allowances_page_from(
                    s,
                    i as int + 1,
                    owner,
                    start_after,
                    l - out@.len(),
                ));
            }
        }
        i = i + 1;
    }
    proof {
        assert(allowances_page_from(s, n as int, owner, start_after, l - out@.len()) =~= Seq::<
            crate::msg::AllowanceInfo,
        >::empty());
        assert(allowances_page_from(s, 0, owner, start_after, l as int) =~= out@);
    }
    out
}

/// What a dispatched request did, variant by variant: each arm is the
/// exact contract of the operation the request was dispatched to.
pub open spec fn execute_post(
    pre: Contract,
    post: Contract,
    env: Env,
    sender: u64,
    msg: ExecuteMsg,
    r: Result<Response, ContractError>,
) -> bool {
    match msg {
        ExecuteMsg::Transfer { recipient, amount } => transfer_post(
            pre,
            post,
            r,
            sender,
            recipient,
            amount,
        ),
        ExecuteMsg::Burn { amount } => burn_post(pre, post, r, sender, amount),
        ExecuteMsg::Send { contract, amount, msg } => send_post(
            pre,
            post,
            r,
            sender,
            contract,
            amount,
            msg,
        ),
        ExecuteMsg::Mint { recipient, amount } => mint_post(
            pre,
            post,
            r,
            sender,
            recipient,
            amount,
        ),
        ExecuteMsg::IncreaseAllowance { spender, amount, expires } => {
            crate::allowances::increase_allowance_post(
                pre,
                post,
                r,
                sender,
                spender,
                amount,
                expires,
            )
        },
        ExecuteMsg::DecreaseAllowance { spender, amount, expires } => {
            crate::allowances::decrease_allowance_post(
                pre,
                post,
                r,
                sender,
                spender,
                amount,
                expires,
            )
        },
        ExecuteMsg::TransferFrom { owner, recipient, amount } => {
            crate::allowances::transfer_from_post(
                pre,
                post,
                r,
                env,
                sender,
                owner,
                recipient,
                amount,
            )
        },
        ExecuteMsg::BurnFrom { owner, amount } => crate::allowances::burn_from_post(
            pre,
            post,
            r,
            env,
            sender,
            owner,
            amount,
        ),
        ExecuteMsg::SendFrom { owner, contract, amount, msg } => {
            crate::allowances::send_from_post(
                pre,
                post,
                r,
                env,
                sender,
                owner,
                contract,
                amount,
                msg,
            )
        },
        ExecuteMsg::InvestInIco { ico, amount } => invest_post(
            pre,
            post,
            r,
            sender,
            ico,
            amount,
        ),
        ExecuteMsg::CloseIco { ico } => close_post(pre, post, r, sender),
    }
}

/// Dispatch a caller-identified request to exactly one operation.  The
/// match is exhaustive: each variant carries exactly the fields its
/// operation needs, and the dispatcher's contract repeats each operation's
/// own, word for word, through the shared post predicates.
pub fn execute(c: &mut Contract, env: &Env, sender: u64, msg: ExecuteMsg) -> (r: Result<
    Response,
    ContractError,
>)
    requires
        old(c).wf(),
        msg matches ExecuteMsg::Mint { recipient, amount } ==> (old(c).token.spec_get_cap() is None
            ==> old(c).token.total_supply + amount <= u128::MAX),
        msg matches ExecuteMsg::IncreaseAllowance { spender, amount, expires } ==> old(
            c,
        ).allowances.spec_get(sender, spender).amount + amount <= u128::MAX,
        msg matches ExecuteMsg::CloseIco { ico } ==> (sender == old(c).ico.owner && old(c).ico.state
            == IcoState::Funded ==> allocs_fit(
            old(c).investors@,
            old(c).ico.conversion_ratio_norm,
            old(c).ico.conversion_ratio_denorm,
        )),
    ensures
        final(c).wf(),
        execute_post(*old(c), *final(c), *env, sender, msg, r),
{
    match msg {
        ExecuteMsg::Transfer { recipient, amount } => execute_transfer(c, sender, recipient, amount),
        ExecuteMsg::Burn { amount } => execute_burn(c, sender, amount),
        ExecuteMsg::Send { contract, amount, msg } => execute_send(c, sender, contract, amount, msg),
        ExecuteMsg::Mint { recipient, amount } => execute_mint(c, sender, recipient, amount),
        ExecuteMsg::IncreaseAllowance { spender, amount, expires } => {
            crate::allowances::execute_increase_allowance(c, sender, spender, amount, expires)
        },
        ExecuteMsg::DecreaseAllowance { spender, amount, expires } => {
            crate::allowances::execute_decrease_allowance(c, sender, spender, amount, expires)
        },
        ExecuteMsg::TransferFrom { owner, recipient, amount } => {
            crate::allowances::execute_transfer_from(c, env, sender, owner, recipient, amount)
        },
        ExecuteMsg::BurnFrom { owner, amount } => {
            crate::allowances::execute_burn_from(c, env, sender, owner, amount)
        },
        ExecuteMsg::SendFrom { owner, contract, amount, msg } => {
            crate::allowances::execute_send_from(c, env, sender, owner, contract, amount, msg)
        },
        ExecuteMsg::InvestInIco { ico, amount } => execute_invest_ico(c, sender, ico, amount),
        ExecuteMsg::CloseIco { ico: _ } => execute_close_ico(c, sender),
    }
}

/// Dispatch a read-only query; the adapter serializes the typed answer.
pub fn query(c: &Contract, msg: QueryMsg) -> (r: crate::msg::QueryAnswer)
    requires
        c.wf(),
    ensures
        match msg {
            QueryMsg::Balance { address } => r matches crate::msg::QueryAnswer::Balance(b)
                && b.balance == c.balances.spec_get(address),
            QueryMsg::TokenInfo => r matches crate::msg::QueryAnswer::TokenInfo(t) && t.name
                == c.token.name && t.symbol == c.token.symbol && t.decimals == c.token.decimals
                && t.total_supply == c.token.total_supply,
            QueryMsg::Minter => r matches crate::msg::QueryAnswer::Minter(m) && m == match c
                .token
                .mint {
                Some(d) => Some(
                    crate::msg::MinterResponse { minter: d.minter, cap: d.cap },
                ),
                None => None::<crate::msg::MinterResponse>,
            },
            QueryMsg::Allowance { owner, spender } => r matches crate::msg::QueryAnswer::Allowance(
                a,
            ) && a.allowance == c.allowances.spec_get(owner, spender).amount && a.expires
                == c.allowances.spec_get(owner, spender).expires,
            QueryMsg::AllAccounts { start_after, limit } => r matches
                crate::msg::QueryAnswer::AllAccounts(v) && v@ == accounts_page_from(
                c.balances@,
                0,
                start_after,
                page_limit(limit),
            ),
            QueryMsg::AllAllowances { owner, start_after, limit } => r matches
                crate::msg::QueryAnswer::AllAllowances(v) && v@ == allowances_page_from(
                c.allowances@,
                0,
                owner,
                start_after,
                page_limit(limit),
            ),
        },
{
    match msg {
        QueryMsg::Balance { address } => crate::msg::QueryAnswer::Balance(
            query_balance(c, address),
        ),
        QueryMsg::TokenInfo => crate::msg::QueryAnswer::TokenInfo(query_token_info(c)),
        QueryMsg::Minter => crate::msg::QueryAnswer::Minter(query_minter(c)),
        QueryMsg::Allowance { owner, spender } => crate::msg::QueryAnswer::Allowance(
            query_allowance(c, owner, spender),
        ),
        QueryMsg::AllAccounts { start_after, limit } => crate::msg::QueryAnswer::AllAccounts(
            query_all_accounts(c, start_after, limit),
        ),
        QueryMsg::AllAllowances { owner, start_after, limit } => {
            crate::msg::QueryAnswer::AllAllowances(
                query_all_allowances(c, owner, start_after, limit),
            )
        },
    }
}

/// One dispatched request in a history: its environment, caller, message
/// and outcome.
pub type Step = (Env, u64, ExecuteMsg, Result<Response, ContractError>);

/// A history: `steps.len()` dispatched requests, each relating one state
/// to the next exactly as the dispatcher's contract describes.
pub open spec fn chained(states: Seq<Contract>, steps: Seq<Step>) -> bool {
    &&& states.len() == steps.len() + 1
    &&& forall|i: int|
        0 <= i < steps.len() ==> #[trigger] execute_post(
            states[i],
            states[i + 1],
            steps[i].0,
            steps[i].1,
            steps[i].2,
            steps[i].3,
        )
}

/// Conservation across whole histories: a sequence of transfer and send
/// requests — successful or failed — never changes the sum of all balances
/// nor the total supply.  Mint and burn are the only operations that move
/// either, and their own contracts pin the movement to exactly the minted
/// or burned amount.
pub proof fn lemma_conservation_of_moves(states: Seq<Contract>, steps: Seq<Step>)
    requires
        chained(states, steps),
        forall|i: int|
            0 <= i < steps.len() ==> ((#[trigger] steps[i].2) is Transfer || steps[i].2 is Send),
    ensures
        total(states.last().balances@) == total(states[0].balances@),
        states.last().token.total_supply == states[0].token.total_supply,
    decreases steps.len(),
{
    if steps.len() > 0 {
        let tail_states = states.drop_first();
        let tail_steps = steps.drop_first();
        assert(execute_post(
            states[0],
            states[0int + 1],
            steps[0].0,
            steps[0].1,
            steps[0].2,
            steps[0].3,
        ));
        assert(total(states[1].balances@) == total(states[0].balances@) && states[1]
            .token
            .total_supply == states[0].token.total_supply) by {
            match steps[0].2 {
                ExecuteMsg::Transfer { recipient, amount } => {
                    if !(steps[0].3 is Ok) {
                        assert(same_state(states[1], states[0]));
                    }
                },
                ExecuteMsg::Send { contract, amount, msg } => {
                    if !(steps[0].3 is Ok) {
                        assert(same_state(states[1], states[0]));
                    }
                },
                _ => {},
            }
        }
        assert forall|i: int|
            0 <= i < tail_steps.len() implies #[trigger] execute_post(
                tail_states[i],
                tail_states[i + 1],
                tail_steps[i].0,
                tail_steps[i].1,
                tail_steps[i].2,
                tail_steps[i].3,
            ) && (tail_steps[i].2 is Transfer || tail_steps[i].2 is Send) by {
            assert(tail_states[i] == states[i + 1]);
            assert(tail_states[i + 1] == states[i + 2]);
            assert(tail_steps[i] == steps[i + 1]);
            assert(execute_post(
                states[i + 1],
                states[i + 2],
                steps[i + 1].0,
                steps[i + 1].1,
                steps[i + 1].2,
                steps[i + 1].3,
            ));
            assert(steps[i + 1].2 is Transfer || steps[i + 1].2 is Send);
        }
        lemma_conservation_of_moves(tail_states, tail_steps);
        assert(tail_states.last() == states.last());
        assert(tail_states[0] == states[1]);
    }
}

} // verus!
