//! The decisions of a transaction-throughput benchmark client and of a token
//! service front end: reading their settings, shaping the rounds of signed
//! transfers, watching airdrops, barrier confirmations and the gossip table,
//! and summing up what the sampled nodes processed.
pub mod airdrop;
pub mod barrier;
pub mod batches;
pub mod config;
pub mod convergence;
pub mod direction;
pub mod numparse;
pub mod report;
pub mod sampling;
