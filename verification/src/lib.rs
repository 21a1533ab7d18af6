//! An account registry with machine-checked contracts.
//!
//! The registry takes a candidate username, validates it, and creates an
//! account for it unless one exists; it also lists the accounts in order.
//!
//! - [`username`] decides which texts are usernames.
//! - [`account`] holds what an account is.
//! - [`store`] is the account table: one row per username, in ascending order.
//! - [`protocol`] is the registration protocol as a machine that is told
//!   what the storage answered and says what to ask next.
//! - [`service`] runs the protocol against the table, and lists.
//! - [`race`] proves what holds when several registrations of one name run
//!   side by side.
//! - [`reply`] chooses what is sent back.
//! - [`json`] is the shape of a request body, and [`text`] the order in
//!   which usernames and timestamps are compared.
//!
//! Two things are taken from other crates and believed rather than proved:
//! what the username pattern matches (`regex`), and the reading of the clock
//! (`chrono`), of which nothing is claimed.

pub mod account;
mod clock;
pub mod json;
pub mod protocol;
pub mod race;
pub mod reply;
pub mod service;
pub mod store;
pub mod text;
pub mod username;
