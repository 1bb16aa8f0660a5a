//! What the app says to other machines, and what it makes of their answers.

pub mod address;
pub mod flow;
pub mod form;
pub mod hex;
pub mod identity;
pub mod join;
pub mod listener;
pub mod noded;
pub mod passkey;
pub mod wire;
