//! Cashu tokens in messages: what is shown in their place.

use std::str::FromStr;
use vstd::prelude::*;

use crate::terminal_ux::encoding::{can_be_parsed, ids_are_sound};
use crate::text::{decimal, decimal_text, has_prefix, starts_with, text_or, text_view};

verus! {

/// What a token says of itself, as a mathematical value.
pub struct TokenFacts {
    pub version: u8,
    /// The total value, where the token has one.
    pub amount: Option<u64>,
    /// The mint, where there is exactly one.
    pub mint_url: Option<Seq<char>>,
    pub memo: Option<Seq<char>>,
    /// The name of the currency unit.
    pub unit: Option<Seq<char>>,
}

/// What a token says of itself.
#[derive(Debug)]
pub struct TokenInfo {
    pub version: u8,
    /// The total value, where the token has one.
    pub amount: Option<u64>,
    /// The mint, where there is exactly one.
    pub mint_url: Option<String>,
    pub memo: Option<String>,
    /// The name of the currency unit.
    pub unit: Option<String>,
}

impl View for TokenInfo {
    type V = TokenFacts;

    open spec fn view(&self) -> TokenFacts {
        TokenFacts {
            version: self.version,
            amount: self.amount,
            mint_url: text_view(self.mint_url),
            memo: text_view(self.memo),
            unit: text_view(self.unit),
        }
    }
}

/// What the token says of itself that is parsed from a text with sound keyset ids, `None` where
/// none is.
pub uninterp spec fn parsed_token(text: Seq<char>) -> Option<TokenFacts>;

/// What the token that a text encodes says of itself, `None` where the text encodes no token. A
/// token has keyset ids that a version can be taken from.
pub open spec fn token_facts(text: Seq<char>) -> Option<TokenFacts> {
    if ids_are_sound(text) {
        parsed_token(text)
    } else {
        None
    }
}

/// A text in lower case.
pub uninterp spec fn lowercase(text: Seq<char>) -> Seq<char>;

/// `cdk::nuts::Token::from_str`, and the token's `value`, `mint_url`, `memo` and `unit` as plain
/// values, the unit by the name that `Debug` gives it: all of them functions of the text. A token
/// of version 3 begins with `cashuA`, one of version 4 with `cashuB`, and there is no other.
///
/// The call takes the first byte of a keyset id in CBOR, and cuts one of sixteen bytes in JSON
/// after the second, without asking whether it can: it panics where a text encodes an id that is
/// empty, or has a character across the cut.
#[verifier::external_body]
fn parse_token(text: &str) -> (r: Option<TokenInfo>)
    requires
        ids_are_sound(text@),
    ensures
        match r {
            Some(info) => parsed_token(text@) == Some(info@),
            None => parsed_token(text@) is None,
        },
        r matches Some(info) ==> info@.version == 3 && has_prefix(text@, "cashuA"@)
            || info@.version == 4 && has_prefix(text@, "cashuB"@),
{
    match cdk::nuts::Token::from_str(text) {
        Ok(token) => Some(
            TokenInfo {
                version: match &token {
                    cdk::nuts::Token::TokenV3(_) => 3,
                    cdk::nuts::Token::TokenV4(_) => 4,
                },
                amount: token.value().ok().map(u64::from),
                mint_url: token.mint_url().ok().map(|url| url.to_string()),
                memo: token.memo().clone(),
                unit: token.unit().map(|unit| format!("{:?}", unit)),
            },
        ),
        Err(_) => None,
    }
}

/// `str::to_lowercase`: the lower-case text is a function of the text.
#[verifier::external_body]
fn to_lowercase(text: &str) -> (r: String)
    ensures
        r@ == lowercase(text@),
{
    text.to_lowercase()
}

/// A number in decimal, or a word in its place.
pub open spec fn amount_text(amount: Option<u64>) -> Seq<char> {
    match amount {
        Some(n) => decimal_text(n as nat),
        None => "unknown"@,
    }
}

/// What is shown for a token. The unit is written as it is.
pub open spec fn token_text(facts: TokenFacts) -> Seq<char> {
    "🎫 Cashu Token v"@ + decimal_text(facts.version as nat) + ": "@ + amount_text(facts.amount)
        + " "@ + text_or(facts.unit, "sat"@) + " from "@ + text_or(
        facts.mint_url,
        "unknown mint"@,
    ) + (match facts.memo {
        Some(memo) => " ("@ + memo + ")"@,
        None => ""@,
    })
}

/// A token's facts with the unit in lower case.
pub open spec fn with_lowercase_unit(facts: TokenFacts) -> TokenFacts {
    TokenFacts {
        unit: match facts.unit {
            Some(unit) => Some(lowercase(unit)),
            None => None,
        },
        ..facts
    }
}

/// A text without the prefix `cashu:`.
pub open spec fn without_scheme(text: Seq<char>) -> Seq<char> {
    if has_prefix(text, "cashu:"@) {
        text.subrange(6, text.len() as int)
    } else {
        text
    }
}

/// What is shown for a text that encodes a token.
pub open spec fn decoded(text: Seq<char>) -> Option<Seq<char>> {
    match token_facts(without_scheme(text)) {
        Some(facts) => Some(token_text(with_lowercase_unit(facts))),
        None => None,
    }
}

/// What is shown for a token.
pub fn describe_token(info: &TokenInfo) -> (r: String)
    ensures
        r@ == token_text(info@),
{
    let mut text: String = "🎫 Cashu Token v".to_string();
    text.append(decimal(info.version as u128).as_str());
    text.append(": ");
    match info.amount {
        Some(amount) => text.append(decimal(amount as u128).as_str()),
        None => text.append("unknown"),
    }
    text.append(" ");
    match &info.unit {
        Some(unit) => text.append(unit.as_str()),
        None => text.append("sat"),
    }
    text.append(" from ");
    match &info.mint_url {
        Some(url) => text.append(url.as_str()),
        None => text.append("unknown mint"),
    }
    let memo: String = match &info.memo {
        Some(memo) => {
            let mut m: String = " (".to_string();
            m.append(memo.as_str());
            m.append(")");
            m
        },
        None => "".to_string(),
    };
    text.append(memo.as_str());
    text
}

/// What is shown for a text that encodes a token, with or without the prefix `cashu:`.
pub fn decode_cashu_token(token_str: &str) -> (r: Option<String>)
    ensures
        text_view(r) == decoded(token_str@),
{
    let bare: &str = if starts_with(token_str, "cashu:") {
        proof {
            reveal_strlit("cashu:");
        }
        token_str.substring_char(6, token_str.unicode_len())
    } else {
        token_str
    };
    if !can_be_parsed(bare) {
        return None;
    }
    match parse_token(bare) {
        Some(info) => {
            let shown = TokenInfo {
                unit: match &info.unit {
                    Some(unit) => Some(to_lowercase(unit.as_str())),
                    None => None,
                },
                ..info
            };
            Some(describe_token(&shown))
        },
        None => None,
    }
}

} // verus!
