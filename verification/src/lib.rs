//! Machine-owner reward accounting.
//!
//! This library is the deterministic core of a machine-owner reward system:
//! it registers unique machine identities against owner accounts, keeps a
//! rolling window of per-period block rewards together with its running sum,
//! and moves tokens by minting or by paying out of a distinguished pot
//! account, with under-funding protection.
//!
//! The host environment (caller authentication, the external identity oracle,
//! persistence, event delivery) is kept outside: every operation takes plain
//! values, among them the oracle's verdict about an owner/machine pair, and
//! returns either the event it produced or a typed error, mutating the
//! explicit [`pallet::Pallet`] state it was given.

pub mod account;
pub mod bank;
pub mod error;
pub mod ledger;
pub mod pallet;
pub mod registry;
pub mod types;
