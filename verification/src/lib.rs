//! An in-memory ledger of unsigned balances, one per caller identity.
//!
//! The store offers deposits, withdrawals, a simulated lend and borrow, and a
//! yield-farming call that does nothing. Every call is a function of the
//! balances before it: its contract states the balances after it and the
//! exact text of its reply.
//!
//! - [`identity`]: the identities that own the balances.
//! - [`balances`]: the balances as a mathematical map, and what each call
//!   does to that map.
//! - [`decimal`] and [`replies`]: the numerals and the texts of the replies.
//! - [`ledger`]: the store itself.
//! - [`laws`]: what holds of the calls whatever the balances and the history.

pub mod balances;
pub mod decimal;
pub mod identity;
pub mod laws;
pub mod ledger;
pub mod replies;

pub use crate::identity::UserId;
pub use crate::ledger::{yield_farm, Ledger};
