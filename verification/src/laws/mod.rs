//! What holds of the program as a whole.
pub mod answers;
pub mod calls;
pub mod client;
pub mod custom;
pub mod data;
pub mod instructions;
pub mod lifecycle;
pub mod meaning;
pub mod messages;
pub mod numbers;
pub mod parameters;
pub mod report;
pub mod running;
pub mod showing;
pub mod views;
