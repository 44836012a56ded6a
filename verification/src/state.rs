//! The singleton records and the whole contract state.
//!
//! Accounts are plain 64-bit identifiers; the host adapter canonicalizes
//! address text into identifiers and back.  The state is loaded at the start
//! of a request and stored only when the request returns success, so a failed
//! operation leaves everything unchanged.

use vstd::prelude::*;
use crate::allowances::Allowances;
use crate::ledger::Ledger;
use crate::ledger::total;

verus! {

/// Block environment, as far as the core reads it: allowance expiry is
/// judged against the current height and timestamp.
#[derive(Clone, Copy, Debug, PartialEq, Eq, Structural)]
pub struct Env {
    pub height: u64,
    pub time: u64,
}

/// When a delegated spending limit stops being valid.  Once set it is only
/// ever replaced, never merged.
#[derive(Clone, Copy, Debug, PartialEq, Eq, Structural)]
pub enum Expiration {
    /// Expired once the block height is at or past the given one.
    AtHeight(u64),
    /// Expired once the block timestamp is at or past the given one.
    AtTime(u64),
    /// Never expires.
    Never,
}

impl Expiration {
    /// Whether the expiry has passed in the given environment.
    pub open spec fn spec_is_expired(self, env: Env) -> bool {
        match self {
            Expiration::AtHeight(h) => env.height >= h,
            Expiration::AtTime(t) => env.time >= t,
            Expiration::Never => false,
        }
    }

    /// Whether the expiry has passed in the given environment.
    pub fn is_expired(&self, env: &Env) -> (r: bool)
        ensures
            r == self.spec_is_expired(*env),
    {
        match self {
            Expiration::AtHeight(h) => env.height >= *h,
            Expiration::AtTime(t) => env.time >= *t,
            Expiration::Never => false,
        }
    }
}

/// The configured minter.
#[derive(Clone, Copy, Debug, PartialEq, Eq, Structural)]
pub struct MinterData {
    pub minter: u64,
    /// The most tokens that may ever exist while this minter is set.
    pub cap: Option<u128>,
}

/// The token metadata singleton.
#[derive(Clone, Debug, PartialEq, Eq)]
pub struct TokenInfo {
    pub name: String,
    pub symbol: String,
    pub decimals: u8,
    pub total_supply: u128,
    pub mint: Option<MinterData>,
}

impl TokenInfo {
    /// The configured supply cap, when a minter with a cap is set.
    pub open spec fn spec_get_cap(&self) -> Option<u128> {
        match self.mint {
            Some(m) => m.cap,
            None => None,
        }
    }

    /// The configured supply cap, when a minter with a cap is set.
    pub fn get_cap(&self) -> (r: Option<u128>)
        ensures
            r == self.spec_get_cap(),
    {
        match &self.mint {
            Some(m) => m.cap,
            None => None,
        }
    }
}

/// The campaign's explicit state machine.  `Open` and `Funded` admit a
/// `close`; `Allocated` and `Refunded` are terminal.
#[derive(Clone, Copy, Debug, PartialEq, Eq, Structural)]
pub enum IcoState {
    /// Still raising: `raised_amount < target_amount`.
    Open,
    /// Fully raised and eligible for closing.
    Funded,
    /// Closed with the target reached; new tokens were distributed.
    Allocated,
    /// Closed early; every investment was returned.
    Refunded,
}

/// The campaign record singleton.  The conversion ratio is fixed at
/// creation and never mutated.
#[derive(Clone, Copy, Debug, PartialEq, Eq, Structural)]
pub struct IcoInfo {
    pub owner: u64,
    pub target_amount: u128,
    pub raised_amount: u128,
    pub conversion_ratio_norm: u128,
    pub conversion_ratio_denorm: u128,
    pub state: IcoState,
}

/// The whole contract state: the token metadata, the campaign record, and
/// the three balance namespaces plus the allowance table.
#[derive(Debug)]
pub struct Contract {
    pub token: TokenInfo,
    pub ico: IcoInfo,
    /// The original token's balances.
    pub balances: Ledger,
    /// The newly issued asset, credited only during allocation.
    pub new_token_balances: Ledger,
    /// Cumulative amount each investor put into the campaign; read by the
    /// emergency refund.
    pub investors: Ledger,
    pub allowances: Allowances,
}

impl Contract {
    /// The global invariants.  Every operation requires and preserves them:
    /// the ledgers are well-formed, the balances sum exactly to the total
    /// supply, a configured cap is respected, the raised amount never
    /// passes the target and always equals the investors' recorded sum, the
    /// campaign state agrees with the amounts, and no new token exists
    /// before allocation.
    pub open spec fn wf(&self) -> bool {
        &&& self.balances.wf()
        &&& self.new_token_balances.wf()
        &&& self.investors.wf()
        &&& self.allowances.wf()
        &&& total(self.balances@) == self.token.total_supply as int
        &&& (match self.token.spec_get_cap() {
            Some(c) => self.token.total_supply <= c,
            None => true,
        })
        &&& self.ico.raised_amount <= self.ico.target_amount
        &&& self.ico.conversion_ratio_denorm > 0
        &&& total(self.investors@) == self.ico.raised_amount as int
        &&& (self.ico.state == IcoState::Open ==> self.ico.raised_amount
            < self.ico.target_amount)
        &&& (self.ico.state == IcoState::Funded ==> self.ico.raised_amount
            == self.ico.target_amount)
        &&& (self.ico.state == IcoState::Allocated ==> self.ico.raised_amount
            == self.ico.target_amount)
        &&& (self.ico.state != IcoState::Allocated ==> total(self.new_token_balances@) == 0)
    }
}

/// Conservation: in every well-formed state the balances sum exactly to
/// the total supply.  Every operation requires and re-establishes
/// well-formedness, and its own contract pins how the supply moves — not
/// at all for transfer and send, up by the minted amount, down by the
/// burned one — so the sum of balances moves in exact lockstep across any
/// sequence of operations.
pub proof fn lemma_conservation(c: Contract)
    requires
        c.wf(),
    ensures
        total(c.balances@) == c.token.total_supply as int,
{
}

/// Cap enforcement: in every well-formed state a configured cap bounds the
/// total supply.  Every operation re-establishes well-formedness, so no
/// sequence of mints can ever push the supply past the cap.
pub proof fn lemma_cap_enforced(c: Contract)
    requires
        c.wf(),
    ensures
        match c.token.spec_get_cap() {
            Some(cap) => c.token.total_supply <= cap,
            None => true,
        },
{
}

/// Both states hold the same ledgers, records and allowances.  Failed
/// operations relate their final state to their initial one by this.
pub open spec fn same_state(a: Contract, b: Contract) -> bool {
    &&& a.token == b.token
    &&& a.ico == b.ico
    &&& a.balances@ == b.balances@
    &&& a.new_token_balances@ == b.new_token_balances@
    &&& a.investors@ == b.investors@
    &&& a.allowances@ == b.allowances@
}

} // verus!
