//! Encodings, dates, definitions and messages.
pub mod base58;
pub mod datetime;
pub mod definition;
pub mod message;
