//! A multisig wallet whose members sign human-readable messages.
//!
//! A wallet has intents: kinds of action that its members agreed on. A
//! proposal asks for one action of an intent; approvers sign a text that says
//! in words what they approve, and an approved proposal can be executed once
//! its timelock has passed.
pub mod accounts;
pub mod address;
pub mod bench;
pub mod bytes;
pub mod clear_msig_anchor;
pub mod client;
pub mod crypto;
pub mod error;
pub mod gather;
pub mod instructions;
pub mod laws;
pub mod metas;
pub mod pda;
pub mod report;
pub mod state;
pub mod text;
pub mod utils;
