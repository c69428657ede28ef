//! A peer-to-peer ledger node: a chain of proof-of-work blocks, a pool of
//! pending transactions with fee-priority admission, and the decisions a node
//! takes on messages from its peers.
pub mod types;
pub mod mempool;
pub mod codec;
pub mod digest;
pub mod blockchain;
pub mod peers;
pub mod node;
pub mod args;
pub mod wallets;
