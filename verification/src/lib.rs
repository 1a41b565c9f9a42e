//! A custodial, ledger-backed orchestrator for payment-versus-payment (PvP)
//! settlement across two EVM-compatible networks.
//!
//! The crate holds the verified core: per-user wallets with per-network
//! balance bookkeeping, a registry of EVM networks, the user and wallet
//! indices, and the PvP state machine that drives a two-leg atomic exchange
//! through a dedicated escrow wallet.  Host concerns (the durable key-value
//! ledger, JSON command parsing, JSON-RPC transport) live outside the crate
//! and hand plain values in and out.

pub mod abi;
pub mod address;
pub mod amount;
pub mod crypto;
pub mod eip1559;
pub mod engine;
pub mod errors;
pub mod hexstr;
pub mod network;
pub mod rlp;
pub mod transaction;
pub mod transactions;
pub mod user;
pub mod users;
pub mod wallet;
pub mod wallets;
