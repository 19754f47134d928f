//! A 2-3 player turn-based elimination game ("Russian roulette") written as
//! verified session-state-machine logic, together with the stub scoring hub
//! it reports to.
//!
//! The engine ([`contract::ZkMafiaContract`]) owns a store of sessions keyed
//! by a caller-supplied id. Players join a waiting lobby, the host commits a
//! hidden bullet position and starts the game, and players then take turns
//! firing: the chamber counter walks towards the committed bullet position,
//! a hit eliminates the acting player, and the cylinder auto-reloads from a
//! SHA-256 derivation until one player remains.
//!
//! The host platform's concerns (storage expiry, signature authentication,
//! event transport, cross-contract dispatch) stay outside this crate: entry
//! points take and return plain values, and the notifications owed to the
//! scoring hub are returned to the caller as data.

pub mod contract;
pub mod errors;
pub mod hashing;
pub mod hub;
pub mod laws;
pub mod session;
