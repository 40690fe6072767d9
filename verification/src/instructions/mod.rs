//! The instructions of the program.
pub mod approve;
pub mod cancel;
pub mod cleanup_proposal;
pub mod create_wallet;
pub mod custom;
pub mod execute;
pub mod propose;
