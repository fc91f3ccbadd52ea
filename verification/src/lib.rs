//! A payment channel for several users and an operator: balances are hidden in commitments, payments
//! are proved to be covered, signed blindly by the payee, voted on by the users and settled on a chain.
pub mod blockchain;
pub mod config;
pub mod crypto;
pub mod encoding;
pub mod names;
pub mod network;
pub mod text;
