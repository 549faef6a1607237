//! Minting: from the quote through the payment to the tokens.

use vstd::prelude::*;

use crate::cashu_wallet::error::{price, priced, Failure, WalletError};
use crate::cashu_wallet::mint_url::{currency_name, normal_address, parse_mint_url, unit_name};
use crate::text::text_view;

verus! {

/// How far minting has come.
#[derive(Debug)]
pub enum MintStage {
    /// A wallet was asked for.
    Opening,
    /// A quote was asked for.
    Quoting { mint_url: String },
    /// The payment of the quote is awaited.
    Waiting { mint_url: String, quote_id: String },
    /// The tokens were asked for.
    Minting { mint_url: String },
    Over,
}

/// Minting in progress.
#[derive(Debug)]
pub struct MintTask {
    amount: u64,
    unit: String,
    stage: MintStage,
}

/// What was learned.
#[derive(Debug)]
pub enum MintEvent {
    /// The wallet at this mint is open.
    Opened(String),
    /// There is no wallet for the unit.
    NoWallet,
    /// The quote, and what is to be paid.
    Quote { id: String, request: String },
    /// The state of a quote, and whether it is that it was paid.
    Notice { paid: bool },
    /// There will be no more notices.
    NoticesEnded,
    /// The amounts of the tokens that were minted.
    Minted(Vec<u64>),
}

/// What is to be done next.
#[derive(Debug)]
pub enum MintAction {
    /// Open the wallet at this mint, and create it where there is none.
    OpenWallet(String),
    /// Search for a wallet.
    FindWallet,
    /// Ask the mint for a quote of this amount.
    RequestQuote(u64),
    /// Report this, and await notices on the quote.
    Subscribe { report: String, quote_id: String },
    /// Await the next notice.
    Listen,
    /// Report this, and mint the tokens of the quote.
    MintTokens { report: String, quote_id: String },
    /// Report this: the tokens are there.
    Report(String),
    Fail(WalletError),
    /// Nothing: what was learned is not what was asked for.
    Wait,
}

/// How far minting has come, as a mathematical value.
pub enum Stage {
    Opening,
    Quoting { mint_url: Seq<char> },
    Waiting { mint_url: Seq<char>, quote_id: Seq<char> },
    Minting { mint_url: Seq<char> },
    Over,
}

/// Minting in progress, as a mathematical value.
pub struct Minting {
    pub amount: u64,
    pub unit: Seq<char>,
    pub stage: Stage,
}

/// What was learned, as a mathematical value.
pub enum Happened {
    Opened(Seq<char>),
    NoWallet,
    Quote { id: Seq<char>, request: Seq<char> },
    Notice { paid: bool },
    NoticesEnded,
    Minted(Seq<u64>),
}

/// What is to be done next, as a mathematical value.
pub enum Order {
    OpenWallet(Seq<char>),
    FindWallet,
    RequestQuote(u64),
    Subscribe { report: Seq<char>, quote_id: Seq<char> },
    Listen,
    MintTokens { report: Seq<char>, quote_id: Seq<char> },
    Report(Seq<char>),
    Fail(Failure),
    Wait,
}

impl View for MintStage {
    type V = Stage;

    open spec fn view(&self) -> Stage {
        match self {
            MintStage::Opening => Stage::Opening,
            MintStage::Quoting { mint_url } => Stage::Quoting { mint_url: mint_url@ },
            MintStage::Waiting { mint_url, quote_id } => Stage::Waiting {
                mint_url: mint_url@,
                quote_id: quote_id@,
            },
            MintStage::Minting { mint_url } => Stage::Minting { mint_url: mint_url@ },
            MintStage::Over => Stage::Over,
        }
    }
}

impl View for MintTask {
    type V = Minting;

    closed spec fn view(&self) -> Minting {
        Minting { amount: self.amount, unit: self.unit@, stage: self.stage@ }
    }
}

impl View for MintEvent {
    type V = Happened;

    open spec fn view(&self) -> Happened {
        match self {
            MintEvent::Opened(mint) => Happened::Opened(mint@),
            MintEvent::NoWallet => Happened::NoWallet,
            MintEvent::Quote { id, request } => Happened::Quote { id: id@, request: request@ },
            MintEvent::Notice { paid } => Happened::Notice { paid: *paid },
            MintEvent::NoticesEnded => Happened::NoticesEnded,
            MintEvent::Minted(amounts) => Happened::Minted(amounts@),
        }
    }
}

impl View for MintAction {
    type V = Order;

    open spec fn view(&self) -> Order {
        match self {
            MintAction::OpenWallet(mint) => Order::OpenWallet(mint@),
            MintAction::FindWallet => Order::FindWallet,
            MintAction::RequestQuote(amount) => Order::RequestQuote(*amount),
            MintAction::Subscribe { report, quote_id } => Order::Subscribe {
                report: report@,
                quote_id: quote_id@,
            },
            MintAction::Listen => Order::Listen,
            MintAction::MintTokens { report, quote_id } => Order::MintTokens {
                report: report@,
                quote_id: quote_id@,
            },
            MintAction::Report(text) => Order::Report(text@),
            MintAction::Fail(error) => Order::Fail(error@),
            MintAction::Wait => Order::Wait,
        }
    }
}

/// The sum of the amounts of tokens.
pub open spec fn sum(amounts: Seq<u64>) -> nat
    decreases amounts.len(),
{
    if amounts.len() == 0 {
        0
    } else {
        sum(amounts.drop_last()) + amounts.last() as nat
    }
}

/// What is reported of a quote.
pub open spec fn quote_text(
    id: Seq<char>,
    amount: u64,
    unit: Seq<char>,
    request: Seq<char>,
) -> Seq<char> {
    "🏦 Mint quote created:\nQuote ID: "@ + id + "\nAmount: "@ + priced(amount, unit)
        + "\nPayment request: "@ + request
        + "\nPlease pay this invoice to mint tokens\n⏳ Waiting for payment...\n"@
}

/// What is reported of tokens that were minted.
pub open spec fn minted_text(amount: u64, unit: Seq<char>, mint_url: Seq<char>) -> Seq<char> {
    "🎉 Successfully minted "@ + priced(amount, unit) + " from "@ + mint_url + "\n"@
}

/// How minting begins: at the mint that the user names, given in its normal form if it has one, or
/// else with the search for a wallet.
pub open spec fn mint_begin(amount: u64, unit: Seq<char>, mint: Option<Option<Seq<char>>>) -> (
    Minting,
    Order,
) {
    let at = |stage: Stage| Minting { amount, unit, stage };
    match mint {
        Some(Some(url)) => (at(Stage::Opening), Order::OpenWallet(url)),
        Some(None) => (at(Stage::Over), Order::Fail(Failure::InvalidMintUrl)),
        None => (at(Stage::Opening), Order::FindWallet),
    }
}

/// How minting goes on.
pub open spec fn mint_step(m: Minting, e: Happened) -> (Minting, Order) {
    let at = |stage: Stage| Minting { stage, ..m };
    match (m.stage, e) {
        (Stage::Opening, Happened::Opened(mint_url)) => (
            at(Stage::Quoting { mint_url }),
            Order::RequestQuote(m.amount),
        ),
        (Stage::Opening, Happened::NoWallet) => (
            at(Stage::Over),
            Order::Fail(Failure::NoWalletForUnit { unit: m.unit }),
        ),
        (Stage::Quoting { mint_url }, Happened::Quote { id, request }) => (
            at(Stage::Waiting { mint_url, quote_id: id }),
            Order::Subscribe { report: quote_text(id, m.amount, m.unit, request), quote_id: id },
        ),
        (Stage::Waiting { mint_url, quote_id }, Happened::Notice { paid }) => if paid {
            (
                at(Stage::Minting { mint_url }),
                Order::MintTokens { report: "✅ Payment received!\n"@, quote_id },
            )
        } else {
            (m, Order::Listen)
        },
        (Stage::Waiting { mint_url, quote_id }, Happened::NoticesEnded) => (
            at(Stage::Minting { mint_url }),
            Order::MintTokens { report: ""@, quote_id },
        ),
        (Stage::Minting { mint_url }, Happened::Minted(amounts)) => (
            at(Stage::Over),
            Order::Report(minted_text(sum(amounts) as u64, m.unit, mint_url)),
        ),
        _ => (m, Order::Wait),
    }
}

/// Tokens are asked for only for the quote that was made, and only once it was paid or nothing more
/// is to be heard of it.
pub proof fn tokens_follow_the_payment(m: Minting, e: Happened)
    requires
        mint_step(m, e).1 is MintTokens,
    ensures
        m.stage is Waiting,
        mint_step(m, e).1->MintTokens_quote_id == m.stage->quote_id,
        e == (Happened::Notice { paid: true }) || e is NoticesEnded,
{
}

/// No step changes what is to be minted, and minting that is over stays so.
pub proof fn minting_keeps_its_amount(m: Minting, e: Happened)
    ensures
        mint_step(m, e).0.amount == m.amount,
        mint_step(m, e).0.unit == m.unit,
        m.stage is Over ==> mint_step(m, e) == (m, Order::Wait),
{
}

/// A part of the amounts does not come to more than all of them.
proof fn lemma_sum_grows(amounts: Seq<u64>, n: int)
    requires
        0 <= n <= amounts.len(),
    ensures
        sum(amounts.take(n)) <= sum(amounts),
    decreases amounts.len(),
{
    if n < amounts.len() {
        lemma_sum_grows(amounts.drop_last(), n);
        assert(amounts.drop_last().take(n) =~= amounts.take(n));
    } else {
        assert(amounts.take(n) =~= amounts);
    }
}

/// The sum of the amounts of tokens.
pub fn total_amount(amounts: &Vec<u64>) -> (r: u64)
    requires
        sum(amounts@) <= u64::MAX,
    ensures
        r == sum(amounts@),
{
    let mut result: u64 = 0;
    let mut i: usize = 0;
    assert(amounts@.take(0).len() == 0);
    while i < amounts.len()
        invariant
            i <= amounts@.len(),
            sum(amounts@) <= u64::MAX,
            result == sum(amounts@.take(i as int)),
        decreases amounts@.len() - i,
    {
        proof {
            assert(amounts@.take(i + 1).drop_last() =~= amounts@.take(i as int));
            lemma_sum_grows(amounts@, i + 1);
        }
        result = result + amounts[i];
        i = i + 1;
    }
    assert(amounts@.take(i as int) =~= amounts@);
    result
}

impl MintTask {
    /// Begins minting at the mint with the given address, which is `None` where what the user wrote
    /// is no address, or at a mint that is still to be found.
    pub fn begin(amount: u64, unit: String, mint: Option<Option<String>>) -> (r: (
        MintTask,
        MintAction,
    ))
        ensures
            (r.0@, r.1@) == mint_begin(
                amount,
                unit@,
                match mint {
                    Some(url) => Some(text_view(url)),
                    None => None,
                },
            ),
    {
        match mint {
            Some(Some(url)) => (
                MintTask { amount, unit, stage: MintStage::Opening },
                MintAction::OpenWallet(url),
            ),
            Some(None) => (
                MintTask { amount, unit, stage: MintStage::Over },
                MintAction::Fail(WalletError::InvalidMintUrl),
            ),
            None => (
                MintTask { amount, unit, stage: MintStage::Opening },
                MintAction::FindWallet,
            ),
        }
    }

    /// Begins minting at the mint that the user names, or at one that is still to be found.
    pub fn new(amount: u64, mint_url: Option<&str>, unit: &str) -> (r: (MintTask, MintAction))
        ensures
            (r.0@, r.1@) == mint_begin(
                amount,
                currency_name(unit@),
                match mint_url {
                    Some(text) => Some(normal_address(text@)),
                    None => None,
                },
            ),
    {
        let mint: Option<Option<String>> = match mint_url {
            Some(text) => match parse_mint_url(text) {
                Ok(url) => Some(Some(url)),
                Err(_) => Some(None),
            },
            None => None,
        };
        Self::begin(amount, unit_name(unit), mint)
    }

    /// How minting goes on. The tokens that were minted come to an amount that fits.
    pub fn next(self, event: MintEvent) -> (r: (MintTask, MintAction))
        requires
            event@ matches Happened::Minted(amounts) ==> sum(amounts) <= u64::MAX,
        ensures
            (r.0@, r.1@) == mint_step(self@, event@),
    {
        let MintTask { amount, unit, stage } = self;
        match (stage, event) {
            (MintStage::Opening, MintEvent::Opened(mint_url)) => (
                MintTask { amount, unit, stage: MintStage::Quoting { mint_url } },
                MintAction::RequestQuote(amount),
            ),
            (MintStage::Opening, MintEvent::NoWallet) => {
                let error = WalletError::NoWalletForUnit { unit: unit.clone() };
                (MintTask { amount, unit, stage: MintStage::Over }, MintAction::Fail(error))
            },
            (MintStage::Quoting { mint_url }, MintEvent::Quote { id, request }) => {
                let mut report: String = "🏦 Mint quote created:\nQuote ID: ".to_string();
                report.append(id.as_str());
                report.append("\nAmount: ");
                report.append(price(amount, unit.as_str()).as_str());
                report.append("\nPayment request: ");
                report.append(request.as_str());
                report.append(
                    "\nPlease pay this invoice to mint tokens\n⏳ Waiting for payment...\n",
                );
                let quote_id: String = id.clone();
                (
                    MintTask { amount, unit, stage: MintStage::Waiting { mint_url, quote_id: id } },
                    MintAction::Subscribe { report, quote_id },
                )
            },
            (MintStage::Waiting { mint_url, quote_id }, MintEvent::Notice { paid }) => {
                if paid {
                    (
                        MintTask { amount, unit, stage: MintStage::Minting { mint_url } },
                        MintAction::MintTokens {
                            report: "✅ Payment received!\n".to_string(),
                            quote_id,
                        },
                    )
                } else {
                    (
                        MintTask { amount, unit, stage: MintStage::Waiting { mint_url, quote_id } },
                        MintAction::Listen,
                    )
                }
            },
            (MintStage::Waiting { mint_url, quote_id }, MintEvent::NoticesEnded) => (
                MintTask { amount, unit, stage: MintStage::Minting { mint_url } },
                MintAction::MintTokens { report: "".to_string(), quote_id },
            ),
            (MintStage::Minting { mint_url }, MintEvent::Minted(amounts)) => {
                let received: u64 = total_amount(&amounts);
                let mut text: String = "🎉 Successfully minted ".to_string();
                text.append(price(received, unit.as_str()).as_str());
                text.append(" from ");
                text.append(mint_url.as_str());
                text.append("\n");
                (MintTask { amount, unit, stage: MintStage::Over }, MintAction::Report(text))
            },
            (stage, _) => (MintTask { amount, unit, stage }, MintAction::Wait),
        }
    }
}

} // verus!
