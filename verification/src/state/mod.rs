//! What the accounts of the program hold.
pub mod intent;
pub mod proposal;
pub mod wallet;
