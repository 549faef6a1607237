//! Why a wallet operation failed, and what is said of it.

use vstd::prelude::*;

use crate::text::{decimal, decimal_text};

verus! {

/// Why a wallet operation failed.
#[derive(Debug)]
pub enum WalletError {
    /// What is kept as the seed phrase is none, for the reason given.
    InvalidSeedPhrase { reason: String },
    InvalidMintUrl,
    /// The amount in a command is not a number.
    InvalidAmount,
    /// No mint has a balance of the amount that is to be sent.
    NoMintWithBalance { amount: u64, unit: String },
    InsufficientBalance { available: u64, requested: u64, unit: String },
    NoWalletForUnit { unit: String },
}

/// Why a wallet operation failed, as a mathematical value.
pub enum Failure {
    InvalidSeedPhrase { reason: Seq<char> },
    InvalidMintUrl,
    InvalidAmount,
    NoMintWithBalance { amount: u64, unit: Seq<char> },
    InsufficientBalance { available: u64, requested: u64, unit: Seq<char> },
    NoWalletForUnit { unit: Seq<char> },
}

impl View for WalletError {
    type V = Failure;

    open spec fn view(&self) -> Failure {
        match self {
            WalletError::InvalidSeedPhrase { reason } => Failure::InvalidSeedPhrase {
                reason: reason@,
            },
            WalletError::InvalidMintUrl => Failure::InvalidMintUrl,
            WalletError::InvalidAmount => Failure::InvalidAmount,
            WalletError::NoMintWithBalance { amount, unit } => Failure::NoMintWithBalance {
                amount: *amount,
                unit: unit@,
            },
            WalletError::InsufficientBalance { available, requested, unit } =>
                Failure::InsufficientBalance {
                available: *available,
                requested: *requested,
                unit: unit@,
            },
            WalletError::NoWalletForUnit { unit } => Failure::NoWalletForUnit { unit: unit@ },
        }
    }
}

/// An amount and its unit.
pub open spec fn priced(amount: u64, unit: Seq<char>) -> Seq<char> {
    decimal_text(amount as nat) + " "@ + unit
}

/// An amount and its unit.
pub fn price(amount: u64, unit: &str) -> (r: String)
    ensures
        r@ == priced(amount, unit@),
{
    let mut text: String = decimal(amount as u128);
    text.append(" ");
    text.append(unit);
    text
}

/// What is said of an error.
pub open spec fn error_text(e: Failure) -> Seq<char> {
    match e {
        Failure::InvalidSeedPhrase { reason } => reason,
        Failure::InvalidMintUrl => "Invalid URL"@,
        Failure::InvalidAmount => "Invalid amount"@,
        Failure::NoMintWithBalance { amount, unit } => "No mint found with sufficient balance of "@
            + priced(amount, unit),
        Failure::InsufficientBalance { available, requested, unit } =>
            "Insufficient balance. Available: "@ + priced(available, unit) + ", Requested: "@
            + priced(requested, unit),
        Failure::NoWalletForUnit { unit } => "No wallets available for unit "@ + unit,
    }
}

impl WalletError {
    /// What is said of the error.
    pub fn message(&self) -> (r: String)
        ensures
            r@ == error_text(self@),
    {
        match self {
            WalletError::InvalidSeedPhrase { reason } => reason.clone(),
            WalletError::InvalidMintUrl => "Invalid URL".to_string(),
            WalletError::InvalidAmount => "Invalid amount".to_string(),
            WalletError::NoMintWithBalance { amount, unit } => {
                let mut text: String = "No mint found with sufficient balance of ".to_string();
                text.append(price(*amount, unit.as_str()).as_str());
                text
            },
            WalletError::InsufficientBalance { available, requested, unit } => {
                let mut text: String = "Insufficient balance. Available: ".to_string();
                text.append(price(*available, unit.as_str()).as_str());
                text.append(", Requested: ");
                text.append(price(*requested, unit.as_str()).as_str());
                text
            },
            WalletError::NoWalletForUnit { unit } => {
                let mut text: String = "No wallets available for unit ".to_string();
                text.append(unit.as_str());
                text
            },
        }
    }
}

} // verus!
