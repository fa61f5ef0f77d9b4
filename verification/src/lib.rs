//! Transaction-signing core of a hardware-wallet secure-element application.
//!
//! The crate reassembles a chain transaction from protocol packets into a
//! fixed-capacity buffer, parses it in place into a typed view, and assembles
//! the wire-format signature from the signing primitive's DER output. Session
//! state is guarded by an explicit claim/acquire/release lock discipline.
pub mod bip32;
pub mod bytes;
pub mod lock;
pub mod rlp;
pub mod session;
pub mod sig;
pub mod ui;
pub mod error;
pub mod eth_tx;
pub mod nft;
