//! Asking a mint what it says of itself.

use vstd::prelude::*;

use crate::cashu_wallet::error::{Failure, WalletError};
use crate::cashu_wallet::mint_url::{normal_address, parse_mint_url};
use crate::text::{join3, text_view};

verus! {

/// How to come by the mint that is to be asked.
#[derive(Debug)]
pub enum InfoAction {
    /// Ask the mint with this address.
    Ask(String),
    /// Search for a wallet in `sat`, and ask its mint.
    FindWallet,
    Fail(WalletError),
}

/// How to come by the mint that is to be asked, as a mathematical value.
pub enum Order {
    Ask(Seq<char>),
    FindWallet,
    Fail(Failure),
}

impl View for InfoAction {
    type V = Order;

    open spec fn view(&self) -> Order {
        match self {
            InfoAction::Ask(mint) => Order::Ask(mint@),
            InfoAction::FindWallet => Order::FindWallet,
            InfoAction::Fail(error) => Order::Fail(error@),
        }
    }
}

/// How to come by the mint: the one that the user names, given in its normal form if it has one, or
/// else one where there is a wallet.
pub open spec fn info_begin(mint: Option<Option<Seq<char>>>) -> Order {
    match mint {
        Some(Some(url)) => Order::Ask(url),
        Some(None) => Order::Fail(Failure::InvalidMintUrl),
        None => Order::FindWallet,
    }
}

/// How to come by the mint with the given address, which is `None` where what the user wrote is no
/// address.
pub fn choose_mint(mint: Option<Option<String>>) -> (r: InfoAction)
    ensures
        r@ == info_begin(
            match mint {
                Some(url) => Some(text_view(url)),
                None => None,
            },
        ),
{
    match mint {
        Some(Some(url)) => InfoAction::Ask(url),
        Some(None) => InfoAction::Fail(WalletError::InvalidMintUrl),
        None => InfoAction::FindWallet,
    }
}

/// How to come by the mint that is to be asked.
pub fn mint_to_ask(mint_url: Option<&str>) -> (r: InfoAction)
    ensures
        r@ == info_begin(
            match mint_url {
                Some(text) => Some(normal_address(text@)),
                None => None,
            },
        ),
{
    match mint_url {
        Some(text) => match parse_mint_url(text) {
            Ok(url) => choose_mint(Some(Some(url))),
            Err(_) => choose_mint(Some(None)),
        },
        None => choose_mint(None),
    }
}

/// The line above what a mint says of itself.
pub fn info_heading(mint_url: &str) -> (r: String)
    ensures
        r@ == "🏦 Mint Info for: "@ + mint_url@ + "\n"@,
{
    join3("🏦 Mint Info for: ", mint_url, "\n")
}

} // verus!
