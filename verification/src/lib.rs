//! A proof-of-work mining engine: the job model, the difficulty predicate,
//! the nonce search, and the bookkeeping around submissions and job refreshes.

pub mod hash;
pub mod hexcode;
pub mod difficulty;

pub mod job;
pub mod miner;
pub mod stats;
pub mod api;
pub mod engine;
