//! A deterministic token-custody and governance-poll core.
//!
//! Accounts stake a fungible token into a shared pool, lock part of their
//! stake behind open polls by voting, and polls settle to passed or rejected
//! by a quorum/threshold rule over the tallied weight. Every operation is a
//! pure state transition over [`state::ContractState`]: it validates, then
//! either mutates and reports its effects, or fails and leaves the state
//! untouched. Persistence, message encoding and the balance query that
//! observes the pool are the host's concern and stay outside this crate.

pub mod bank;
pub mod coin_helpers;
pub mod contract;
pub mod error;
pub mod laws;
pub mod msg;
pub mod resolver;
pub mod state;
