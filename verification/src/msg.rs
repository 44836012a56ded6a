//! The typed requests an operation is dispatched on, and the structured
//! outcome it returns.
//!
//! Decoding caller text into these values, and encoding the outcome back,
//! is the host adapter's job; the core only sees plain values.  The
//! attributes of a [`Response`] are the system's audit trail and each
//! operation's contract pins them exactly.

use vstd::prelude::*;
use crate::state::Expiration;
use crate::state::MinterData;

verus! {

/// The genesis message: token metadata, the initial balance list, the
/// optional minter, and the campaign parameters.
pub struct InstantiateMsg {
    pub name: String,
    pub symbol: String,
    pub decimals: u8,
    /// (account, amount) pairs; amounts of a repeated account accumulate.
    pub initial_balances: Vec<(u64, u128)>,
    pub mint: Option<MinterData>,
    /// The campaign owner, into whose balance investments are escrowed.
    pub owner: u64,
    pub target_amount: u128,
    pub conversion_ratio_norm: u128,
    pub conversion_ratio_denorm: u128,
}

/// One request variant per operation, each carrying exactly the fields the
/// operation needs.  The caller's own identity arrives separately.
pub enum ExecuteMsg {
    Transfer { recipient: u64, amount: u128 },
    Burn { amount: u128 },
    Send { contract: u64, amount: u128, msg: Option<Vec<u8>> },
    Mint { recipient: u64, amount: u128 },
    IncreaseAllowance { spender: u64, amount: u128, expires: Option<Expiration> },
    DecreaseAllowance { spender: u64, amount: u128, expires: Option<Expiration> },
    TransferFrom { owner: u64, recipient: u64, amount: u128 },
    BurnFrom { owner: u64, amount: u128 },
    SendFrom { owner: u64, contract: u64, amount: u128, msg: Option<Vec<u8>> },
    InvestInIco { ico: u64, amount: u128 },
    CloseIco { ico: u64 },
}

/// Read-only queries.
pub enum QueryMsg {
    Balance { address: u64 },
    TokenInfo,
    Minter,
    Allowance { owner: u64, spender: u64 },
    AllAccounts { start_after: Option<u64>, limit: Option<u32> },
    AllAllowances { owner: u64, start_after: Option<u64>, limit: Option<u32> },
}

/// What an operation did, for observability.  The adapter renders these as
/// key/value text; they are the only audit trail.
#[derive(Clone, Copy, Debug, PartialEq, Eq, Structural)]
pub enum Attribute {
    Action(ActionKind),
    Sender(u64),
    Recipient(u64),
    Owner(u64),
    Spender(u64),
    /// The caller of an allowance-gated operation.
    By(u64),
    Amount(u128),
}

/// Which operation an attribute list describes.
#[derive(Clone, Copy, Debug, PartialEq, Eq, Structural)]
pub enum ActionKind {
    Transfer,
    Burn,
    Mint,
    Send,
    IncreaseAllowance,
    DecreaseAllowance,
    TransferFrom,
    BurnFrom,
    SendFrom,
    IcoInvestment,
}

/// The one outbound notification a `send` or `send_from` queues: addressed
/// to `contract`, carrying the sender, the amount moved and the opaque
/// payload.  Delivery is the host's responsibility; the core neither awaits
/// nor interprets a reply.
#[derive(Debug)]
pub struct ReceiveNotice {
    pub contract: u64,
    pub sender: u64,
    pub amount: u128,
    pub msg: Option<Vec<u8>>,
}

/// A successful operation's structured outcome: queued outbound messages
/// and the attributes describing the effect.
#[derive(Debug)]
pub struct Response {
    pub messages: Vec<ReceiveNotice>,
    pub attributes: Vec<Attribute>,
}

impl Response {
    /// An outcome with no messages and no attributes.
    pub fn empty() -> (r: Response)
        ensures
            r.messages@ =~= Seq::<ReceiveNotice>::empty(),
            r.attributes@ =~= Seq::<Attribute>::empty(),
    {
        Response { messages: Vec::new(), attributes: Vec::new() }
    }
}

/// Answer to [`QueryMsg::Balance`].
#[derive(Clone, Copy, Debug, PartialEq, Eq, Structural)]
pub struct BalanceResponse {
    pub balance: u128,
}

/// Answer to [`QueryMsg::TokenInfo`].
#[derive(Clone, Debug, PartialEq, Eq)]
pub struct TokenInfoResponse {
    pub name: String,
    pub symbol: String,
    pub decimals: u8,
    pub total_supply: u128,
}

/// Answer to [`QueryMsg::Minter`].
#[derive(Clone, Copy, Debug, PartialEq, Eq, Structural)]
pub struct MinterResponse {
    pub minter: u64,
    pub cap: Option<u128>,
}

/// Answer to [`QueryMsg::Allowance`]: the stored record as it stands, with
/// an absent pair reading as zero that never expires.
#[derive(Clone, Copy, Debug, PartialEq, Eq, Structural)]
pub struct AllowanceResponse {
    pub allowance: u128,
    pub expires: Expiration,
}

/// One row of [`QueryMsg::AllAllowances`]'s answer.
#[derive(Clone, Copy, Debug, PartialEq, Eq, Structural)]
pub struct AllowanceInfo {
    pub spender: u64,
    pub allowance: u128,
    pub expires: Expiration,
}

/// The typed answer to a query; the adapter serializes it.
pub enum QueryAnswer {
    Balance(BalanceResponse),
    TokenInfo(TokenInfoResponse),
    Minter(Option<MinterResponse>),
    Allowance(AllowanceResponse),
    AllAccounts(Vec<u64>),
    AllAllowances(Vec<AllowanceInfo>),
}

} // verus!
