//! Sending: which mint pays, whether it can, and what is reported.

use vstd::prelude::*;

use crate::cashu_wallet::balance::{
    balance_at, balance_view, find_balance, find_mint_with, first_mint_with, is_first_with, Balance,
};
use crate::cashu_wallet::error::{price, priced, Failure, WalletError};
use crate::cashu_wallet::mint_url::{currency_name, normal_address, parse_mint_url, unit_name};
use crate::terminal_ux::message::shown_content;
use crate::terminal_ux::token::{token_facts, token_text, with_lowercase_unit, without_scheme};
use crate::text::{join3, text_view};

verus! {

/// How far a payment has come.
#[derive(Debug)]
pub enum SendStage {
    /// The balances were asked for, to choose a mint.
    Choosing,
    /// The wallet at the mint was asked for.
    Opening,
    /// The balances were asked for, to see whether the mint can pay.
    Checking { mint_url: String },
    /// The token was asked for.
    Creating { mint_url: String },
    Over,
}

/// A payment in progress.
#[derive(Debug)]
pub struct SendTask {
    amount: u64,
    unit: String,
    stage: SendStage,
}

/// What was learned.
#[derive(Debug)]
pub enum SendEvent {
    Balances(Vec<Balance>),
    /// The wallet at this mint is open.
    Opened(String),
    /// The token was created.
    Created,
}

/// What is to be done next.
#[derive(Debug)]
pub enum SendAction {
    FetchBalances,
    /// Open the wallet at this mint, and create it where there is none.
    OpenWallet(String),
    /// Create a token of this amount.
    CreateToken(u64),
    /// Report this: the token is there.
    Report(String),
    Fail(WalletError),
    /// Nothing: what was learned is not what was asked for.
    Wait,
}

/// How far a payment has come, as a mathematical value.
pub enum Stage {
    Choosing,
    Opening,
    Checking { mint_url: Seq<char> },
    Creating { mint_url: Seq<char> },
    Over,
}

/// A payment in progress, as a mathematical value.
pub struct Payment {
    pub amount: u64,
    pub unit: Seq<char>,
    pub stage: Stage,
}

/// What was learned, as a mathematical value.
pub enum Happened {
    Balances(Seq<(Seq<char>, u64)>),
    Opened(Seq<char>),
    Created,
}

/// What is to be done next, as a mathematical value.
pub enum Order {
    FetchBalances,
    OpenWallet(Seq<char>),
    CreateToken(u64),
    Report(Seq<char>),
    Fail(Failure),
    Wait,
}

impl View for SendStage {
    type V = Stage;

    open spec fn view(&self) -> Stage {
        match self {
            SendStage::Choosing => Stage::Choosing,
            SendStage::Opening => Stage::Opening,
            SendStage::Checking { mint_url } => Stage::Checking { mint_url: mint_url@ },
            SendStage::Creating { mint_url } => Stage::Creating { mint_url: mint_url@ },
            SendStage::Over => Stage::Over,
        }
    }
}

impl View for SendTask {
    type V = Payment;

    closed spec fn view(&self) -> Payment {
        Payment { amount: self.amount, unit: self.unit@, stage: self.stage@ }
    }
}

impl View for SendEvent {
    type V = Happened;

    open spec fn view(&self) -> Happened {
        match self {
            SendEvent::Balances(list) => Happened::Balances(balance_view(list@)),
            SendEvent::Opened(mint) => Happened::Opened(mint@),
            SendEvent::Created => Happened::Created,
        }
    }
}

impl View for SendAction {
    type V = Order;

    open spec fn view(&self) -> Order {
        match self {
            SendAction::FetchBalances => Order::FetchBalances,
            SendAction::OpenWallet(mint) => Order::OpenWallet(mint@),
            SendAction::CreateToken(amount) => Order::CreateToken(*amount),
            SendAction::Report(text) => Order::Report(text@),
            SendAction::Fail(error) => Order::Fail(error@),
            SendAction::Wait => Order::Wait,
        }
    }
}

/// What is reported of a token that was created.
pub open spec fn sent_text(amount: u64, unit: Seq<char>, mint_url: Seq<char>) -> Seq<char> {
    "📤 Token created successfully!\nAmount: "@ + priced(amount, unit) + "\nMint: "@ + mint_url
        + "\n"@
}

/// The balance at a mint, zero where it is not listed.
pub open spec fn funds_at(list: Seq<(Seq<char>, u64)>, mint_url: Seq<char>) -> u64 {
    match balance_at(list, mint_url) {
        Some(amount) => amount,
        None => 0,
    }
}

/// How a payment begins: with the address of the mint that the user names, given in its normal
/// form if it has one, or else with the choice of a mint.
pub open spec fn send_begin(amount: u64, unit: Seq<char>, mint: Option<Option<Seq<char>>>) -> (
    Payment,
    Order,
) {
    let at = |stage: Stage| Payment { amount, unit, stage };
    match mint {
        Some(Some(url)) => (at(Stage::Opening), Order::OpenWallet(url)),
        Some(None) => (at(Stage::Over), Order::Fail(Failure::InvalidMintUrl)),
        None => (at(Stage::Choosing), Order::FetchBalances),
    }
}

/// How a payment goes on.
pub open spec fn send_step(p: Payment, e: Happened) -> (Payment, Order) {
    match (p.stage, e) {
        (Stage::Choosing, Happened::Balances(list)) => match first_mint_with(list, p.amount) {
            Some(url) => (Payment { stage: Stage::Opening, ..p }, Order::OpenWallet(url)),
            None => (
                Payment { stage: Stage::Over, ..p },
                Order::Fail(Failure::NoMintWithBalance { amount: p.amount, unit: p.unit }),
            ),
        },
        (Stage::Opening, Happened::Opened(mint_url)) => (
            Payment { stage: Stage::Checking { mint_url }, ..p },
            Order::FetchBalances,
        ),
        (Stage::Checking { mint_url }, Happened::Balances(list)) => if funds_at(list, mint_url)
            < p.amount {
            (
                Payment { stage: Stage::Over, ..p },
                Order::Fail(
                    Failure::InsufficientBalance {
                        available: funds_at(list, mint_url),
                        requested: p.amount,
                        unit: p.unit,
                    },
                ),
            )
        } else {
            (Payment { stage: Stage::Creating { mint_url }, ..p }, Order::CreateToken(p.amount))
        },
        (Stage::Creating { mint_url }, Happened::Created) => (
            Payment { stage: Stage::Over, ..p },
            Order::Report(sent_text(p.amount, p.unit, mint_url)),
        ),
        _ => (p, Order::Wait),
    }
}

/// A token is asked for only for the amount that is to be sent, and only when the mint was just seen
/// to hold as much.
pub proof fn tokens_are_covered(p: Payment, e: Happened, amount: u64)
    requires
        send_step(p, e).1 == Order::CreateToken(amount),
    ensures
        amount == p.amount,
        p.stage is Checking,
        e is Balances,
        funds_at(e->Balances_0, p.stage->Checking_mint_url) >= amount,
{
}

/// No step changes what is to be sent, and a payment that is over stays so.
pub proof fn payments_keep_their_amount(p: Payment, e: Happened)
    ensures
        send_step(p, e).0.amount == p.amount,
        send_step(p, e).0.unit == p.unit,
        p.stage is Over ==> send_step(p, e) == (p, Order::Wait),
{
}

/// A mint that is chosen is one that is listed with enough funds.
pub proof fn chosen_mints_have_funds(p: Payment, list: Seq<(Seq<char>, u64)>, url: Seq<char>)
    requires
        p.stage is Choosing,
        send_step(p, Happened::Balances(list)).1 == Order::OpenWallet(url),
    ensures
        exists|i: int|
            #![trigger list[i]]
            0 <= i < list.len() && list[i].0 == url && list[i].1 >= p.amount,
{
    let i = choose|i: int| is_first_with(list, p.amount, i);
    assert(is_first_with(list, p.amount, i));
    assert(list[i].0 == url);
}

impl SendTask {
    /// Begins a payment at the mint with the given address, which is `None` where what the user
    /// wrote is no address, or at a mint that is still to be chosen.
    pub fn begin(amount: u64, unit: String, mint: Option<Option<String>>) -> (r: (
        SendTask,
        SendAction,
    ))
        ensures
            (r.0@, r.1@) == send_begin(
                amount,
                unit@,
                match mint {
                    Some(url) => Some(text_view(url)),
                    None => None,
                },
            ),
    {
        match mint {
            Some(Some(url)) => (
                SendTask { amount, unit, stage: SendStage::Opening },
                SendAction::OpenWallet(url),
            ),
            Some(None) => (
                SendTask { amount, unit, stage: SendStage::Over },
                SendAction::Fail(WalletError::InvalidMintUrl),
            ),
            None => (
                SendTask { amount, unit, stage: SendStage::Choosing },
                SendAction::FetchBalances,
            ),
        }
    }

    /// Begins a payment at the mint that the user names, or at one that is still to be chosen.
    pub fn new(amount: u64, mint_url: Option<&str>, unit: &str) -> (r: (SendTask, SendAction))
        ensures
            (r.0@, r.1@) == send_begin(
                amount,
                currency_name(unit@),
                match mint_url {
                    Some(text) => Some(normal_address(text@)),
                    None => None,
                },
            ),
    {
        let mint: Option<Option<String>> = match mint_url {
            Some(text) => match parse_mint_url(text) {
                Ok(url) => Some(Some(url)),
                Err(_) => Some(None),
            },
            None => None,
        };
        Self::begin(amount, unit_name(unit), mint)
    }

    /// How the payment goes on.
    pub fn next(self, event: SendEvent) -> (r: (SendTask, SendAction))
        ensures
            (r.0@, r.1@) == send_step(self@, event@),
    {
        let SendTask { amount, unit, stage } = self;
        match (stage, event) {
            (SendStage::Choosing, SendEvent::Balances(list)) => {
                match find_mint_with(&list, amount) {
                    Some(url) => (
                        SendTask { amount, unit, stage: SendStage::Opening },
                        SendAction::OpenWallet(url),
                    ),
                    None => {
                        let error = WalletError::NoMintWithBalance { amount, unit: unit.clone() };
                        (
                            SendTask { amount, unit, stage: SendStage::Over },
                            SendAction::Fail(error),
                        )
                    },
                }
            },
            (SendStage::Opening, SendEvent::Opened(mint_url)) => (
                SendTask { amount, unit, stage: SendStage::Checking { mint_url } },
                SendAction::FetchBalances,
            ),
            (SendStage::Checking { mint_url }, SendEvent::Balances(list)) => {
                let available: u64 = match find_balance(&list, mint_url.as_str()) {
                    Some(balance) => balance,
                    None => 0,
                };
                if available < amount {
                    let error = WalletError::InsufficientBalance {
                        available,
                        requested: amount,
                        unit: unit.clone(),
                    };
                    (SendTask { amount, unit, stage: SendStage::Over }, SendAction::Fail(error))
                } else {
                    (
                        SendTask { amount, unit, stage: SendStage::Creating { mint_url } },
                        SendAction::CreateToken(amount),
                    )
                }
            },
            (SendStage::Creating { mint_url }, SendEvent::Created) => {
                let mut text: String = "📤 Token created successfully!\nAmount: ".to_string();
                text.append(price(amount, unit.as_str()).as_str());
                text.append("\nMint: ");
                text.append(mint_url.as_str());
                text.append("\n");
                (SendTask { amount, unit, stage: SendStage::Over }, SendAction::Report(text))
            },
            (stage, _) => (SendTask { amount, unit, stage }, SendAction::Wait),
        }
    }
}

/// The chat message that carries a token.
pub open spec fn token_message(token: Seq<char>) -> Seq<char> {
    "cashu:"@ + token
}

/// A token that is sent as a chat message is shown to its sender and to the members of a channel
/// as what it says of itself, if it is a token at all.
pub proof fn sent_tokens_are_decoded(token: Seq<char>)
    ensures
        without_scheme(token_message(token)) == token,
        token_facts(token) is Some ==> shown_content(token_message(token)) == token_text(
            with_lowercase_unit(token_facts(token)->0),
        ),
{
    reveal_strlit("cashu:");
    reveal_strlit("cashu");
    let message = token_message(token);
    assert(message.subrange(0, 6) =~= "cashu:"@);
    assert(message.subrange(0, 5) =~= "cashu"@);
    assert(message.subrange(6, message.len() as int) =~= token);
}

/// The chat message that carries a token.
pub fn chat_message(token: &str) -> (r: String)
    ensures
        r@ == token_message(token@),
{
    let mut text: String = "cashu:".to_string();
    text.append(token);
    text
}

/// What is said once a token was to be sent to the chat: that it was, or why not.
pub open spec fn chat_text(failure: Option<Seq<char>>) -> Seq<char> {
    match failure {
        None => "✅ Cashu token sent to chat!\n"@,
        Some(reason) => "\x1b[91m❌ Failed to send message: "@ + reason + "\x1b[0m\n"@,
    }
}

/// What is said once a token was to be sent to the chat: that it was, or why not.
pub fn chat_report(failure: Option<&str>) -> (r: String)
    ensures
        r@ == chat_text(
            match failure {
                Some(reason) => Some(reason@),
                None => None,
            },
        ),
{
    match failure {
        None => "✅ Cashu token sent to chat!\n".to_string(),
        Some(reason) => join3("\x1b[91m❌ Failed to send message: ", reason, "\x1b[0m\n"),
    }
}

/// What is said of a token that could not be created.
pub open spec fn token_failure_text(reason: Seq<char>) -> Seq<char> {
    "\x1b[91m❌ Failed to create cashu token: "@ + reason + "\x1b[0m\n"@
}

/// What is said of a token that could not be created.
pub fn token_failure(reason: &str) -> (r: String)
    ensures
        r@ == token_failure_text(reason@),
{
    join3("\x1b[91m❌ Failed to create cashu token: ", reason, "\x1b[0m\n")
}

/// What is to be done once a token for the chat was created, or was not.
#[derive(Debug)]
pub enum ChatStep {
    /// This message goes to the chat; then the user is told what became of it.
    Send(String),
    /// The user is told this, and the command fails for the reason given.
    Fail { report: String, reason: String },
}

/// What is to be done with a token for the chat, or with the reason why there is none.
pub fn after_token(outcome: Result<&str, &str>) -> (r: ChatStep)
    ensures
        match outcome {
            Ok(token) => r matches ChatStep::Send(message) && message@ == token_message(token@),
            Err(why) => r matches ChatStep::Fail { report, reason } && report@
                == token_failure_text(why@) && reason@ == why@,
        },
{
    match outcome {
        Ok(token) => ChatStep::Send(chat_message(token)),
        Err(why) => ChatStep::Fail { report: token_failure(why), reason: why.to_string() },
    }
}

} // verus!
