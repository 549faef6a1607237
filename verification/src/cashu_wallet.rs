//! The wallet's decisions: which command was given, which mint to use, what to report.

pub mod balance;
pub mod command;
pub mod delete;
pub mod error;
pub mod info;
pub mod laws;
pub mod mint;
pub mod mint_url;
pub mod search;
pub mod seed;
pub mod send;
pub mod setup;
