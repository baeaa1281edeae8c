//! A verified club-membership registry.
//!
//! Clubs are named organizations with an owner and an annual membership fee;
//! members hold per-club subscriptions that expire at a point in logical
//! time. The engine validates each operation, computes the new state, and
//! commits it only if the fee withdrawal requested from the balance ledger
//! succeeds, so every operation is all-or-nothing.
//!
//! The surrounding system supplies three collaborators: an authorization
//! check for club creation, a balance ledger with a keep-alive withdrawal,
//! and a monotonic logical clock. The first two are injected as traits
//! ([`auth::Authorizer`], [`ledger::Ledger`]); the clock value is passed
//! to the one operation that reads it.

pub mod assoc;
pub mod auth;
pub mod laws;
pub mod ledger;
pub mod pallet;
pub mod state;
pub mod types;
