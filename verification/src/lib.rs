//! A transaction engine: deposits, withdrawals and the dispute lifecycle applied
//! to client accounts, with every balance rule stated and proved.

pub mod account;
pub mod engine;
pub mod error;
pub mod laws;
pub mod parse;
pub mod present;
pub mod transaction;
