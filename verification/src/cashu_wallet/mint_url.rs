//! Mint addresses and currency units as the user writes them.

use std::str::FromStr;
use vstd::prelude::*;

use crate::cashu_wallet::error::{Failure, WalletError};

verus! {

/// The error that `cdk` returns for a mint's address.
#[verifier::external_type_specification]
#[verifier::external_body]
pub struct ExMintUrlError(cdk::mint_url::Error);

/// The normal form of a mint's address, `None` where the text is no address.
pub uninterp spec fn normal_address(text: Seq<char>) -> Option<Seq<char>>;

/// The name of the currency unit that a text stands for.
pub uninterp spec fn currency_name(text: Seq<char>) -> Seq<char>;

/// `cdk::mint_url::MintUrl::from_str` and the text of its result: the normal form of the address is
/// a function of the text. The empty text is no address.
#[verifier::external_body]
fn normalize_address(text: &str) -> (r: Result<String, cdk::mint_url::Error>)
    ensures
        r matches Ok(url) ==> normal_address(text@) == Some(url@),
        r is Err ==> normal_address(text@) is None,
        r is Ok ==> text@.len() > 0,
{
    match cdk::mint_url::MintUrl::from_str(text) {
        Ok(url) => Ok(url.to_string()),
        Err(error) => Err(error),
    }
}

/// `cdk::nuts::CurrencyUnit::from_str`, which does not fail, and the text of its result: the name of
/// the unit is a function of the text.
#[verifier::external_body]
fn normalize_unit(text: &str) -> (r: String)
    ensures
        r@ == currency_name(text@),
{
    cdk::nuts::CurrencyUnit::from_str(text).unwrap().to_string()
}

/// The normal form of a mint's address.
pub fn parse_mint_url(text: &str) -> (r: Result<String, WalletError>)
    ensures
        match normal_address(text@) {
            Some(url) => r matches Ok(u) && u@ == url && text@.len() > 0,
            None => r matches Err(e) && e@ == Failure::InvalidMintUrl,
        },
{
    match normalize_address(text) {
        Ok(url) => Ok(url),
        Err(_) => Err(WalletError::InvalidMintUrl),
    }
}

/// The name of the currency unit that a text stands for.
pub fn unit_name(text: &str) -> (r: String)
    ensures
        r@ == currency_name(text@),
{
    normalize_unit(text)
}

} // verus!
