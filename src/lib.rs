//! A single-node, append-only ledger whose blocks are linked by SHA-256
//! digests and sealed by a proof-of-work nonce.

pub mod hashing;
pub mod text;
pub mod block;
pub mod blockchain;
pub mod pow;
