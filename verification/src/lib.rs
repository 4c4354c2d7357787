//! An append-only ledger of signed transfers.
//!
//! Transfers are signed with Ed25519 over the SHA-512 digest of their
//! canonical text. Blocks chain by digest and are attested either by an
//! authority's signature or by a proof-of-work nonce.

pub mod block;
pub mod clock;
pub mod crypto;
pub mod encoding;
pub mod error;
pub mod ledger;
pub mod transaction;
