//! Account-scoped transaction signing and submission for offchain workers.
//!
//! A `Signer` enumerates locally controlled accounts (all of them, any one of
//! them, or an explicit selection), signs messages and payloads on their
//! behalf through a key holder, and hands signed or unsigned transactions to
//! an inclusion queue, advancing each account's nonce by exactly one on every
//! successful signed hand-off.

pub mod laws;
pub mod nonces;
pub mod offchain;
pub mod params;
pub mod pool;
pub mod runtime;
pub mod scale;
pub mod signers;
