//! Accounting core of a fungible-token ledger combined with a single
//! fundraising (ICO) campaign.
//!
//! The library tracks per-account balances, enforces conservation of value
//! across transfers, mints and burns, and manages one campaign that converts
//! invested funds into newly issued token credits at a fixed ratio, with an
//! emergency unwind path.  All state is held in plain records that the host
//! adapter loads at the start of a request and stores when the request
//! succeeds; every operation here is verified to preserve the global
//! invariants (no token created or destroyed except by explicit mint or burn,
//! no negative balance, exact-ratio allocation).

pub mod allowances;
pub mod contract;
pub mod error;
pub mod ledger;
pub mod msg;
pub mod state;
