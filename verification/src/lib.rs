//! A hierarchical, tokenized name registry.
//!
//! Human-readable domain names are minted as non-fungible tokens, organized
//! into parent/child hierarchies with independent expiration semantics, gated
//! by role-based access control and a two-phase payment-confirmation
//! handshake.  The crate is organised bottom-up:
//!
//! - [`access_control`]: role membership and role-admin relationships;
//! - [`nft`]: the token ownership/approval ledger;
//! - [`registry`]: the domain hierarchy with expiration and records;
//! - [`fees`]: the fee schedule keyed by domain-name length;
//! - [`contract`]: the entry-point state machine that sequences the
//!   components above and drives the payment protocol.
//!
//! Every operation takes the aggregate state in and hands an updated state
//! back, or reports a named failure leaving the state untouched.  The
//! environment (message transport, wire encoding, the clock) stays outside:
//! callers pass the caller identity and the current time in, and receive the
//! outbound payment requests as plain values.

pub mod access_control;
pub mod address;
pub mod airdrop;
pub mod assoc;
pub mod config;
pub mod contract;
pub mod errors;
pub mod fees;
pub mod msgs;
pub mod nft;
pub mod registry;
pub mod utils;
pub mod version;
