//! The cryptography of the channel: commitments, signatures, blind signatures and range proofs
//! over the curve BLS12-381.
pub mod backend;
pub mod blind;
pub mod commitment;
pub mod common;
pub mod multisig;
pub mod promises;
pub mod range_proof;
pub mod wrapper;
