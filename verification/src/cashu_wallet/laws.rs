//! What holds of the wallet's decisions and reports.

pub mod commands;
pub mod mints;
pub mod payments;
pub mod reports;
