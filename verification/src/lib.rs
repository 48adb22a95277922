//! Two linked ledgers: an agreement store that tracks multi-party document
//! agreements through a signature-collection lifecycle, and a proof vault
//! that records notarization proofs tied to agreements. Records live in
//! verified key-value tables with secondary indices kept consistent with
//! the primary tables.

pub mod agreement_store;
pub mod agreement_types;
pub mod hashing;
pub mod laws;
pub mod principal;
pub mod proof_types;
pub mod proof_vault;
pub mod store_map;

pub use agreement_types::AgreementStatus;
