//! A single-node educational ledger: a hash-linked chain of blocks, each
//! summarizing a batch of value-transfer transactions between wallets,
//! secured by a proof-of-work puzzle and a Merkle commitment.

pub mod blockchain;
pub mod encode;
pub mod hashing;
pub mod merkle;
pub mod transactions;
pub mod utils;
