//! A peer-to-peer ledger node: hash-linked blocks with proof of work, a
//! closed message envelope with its own wire format, and the acceptance
//! logic that guards each peer's local chain.
pub mod block;
pub mod bytes;
pub mod client;
pub mod codec;
pub mod hash;
pub mod ledger;
pub mod pow;
pub mod signal;
