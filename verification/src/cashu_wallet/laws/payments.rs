//! What holds of payments.

use vstd::prelude::*;

use crate::cashu_wallet::balance::{
    balance_at, first_mint_with, is_entry, is_first_with, lemma_entry, lemma_first_with,
};
use crate::cashu_wallet::error::Failure;
use crate::cashu_wallet::send::{
    chat_text, funds_at, send_begin, send_step, token_failure_text, token_message, Happened, Order,
    Payment, Stage,
};
use crate::text::decimal_text;

verus! {

/// The funds at a mint are what its first entry says, and zero where it has none.
pub proof fn funds_are_what_is_listed(list: Seq<(Seq<char>, u64)>, mint_url: Seq<char>, i: int)
    ensures
        0 <= i < list.len() && list[i].0 == mint_url && (forall|j: int|
            0 <= j < i ==> (#[trigger] list[j]).0 != mint_url) ==> balance_at(list, mint_url)
            == Some(list[i].1) && funds_at(list, mint_url) == list[i].1,
        (forall|j: int| 0 <= j < list.len() ==> (#[trigger] list[j]).0 != mint_url) ==> balance_at(
            list,
            mint_url,
        ) is None && funds_at(list, mint_url) == 0,
{
    if 0 <= i < list.len() && list[i].0 == mint_url && (forall|j: int|
        0 <= j < i ==> (#[trigger] list[j]).0 != mint_url) {
        assert(is_entry(list, mint_url, i));
        lemma_entry(list, mint_url, i);
    }
    if forall|j: int| 0 <= j < list.len() ==> (#[trigger] list[j]).0 != mint_url {
        assert forall|k: int| !is_entry(list, mint_url, k) by {
            if is_entry(list, mint_url, k) {
                assert(list[k].0 != mint_url);
            }
        }
    }
}

/// A mint that is listed with the amount or more pays: the next thing to do is to create a token of
/// that amount, whatever is left over.
pub proof fn enough_funds_are_enough(p: Payment, list: Seq<(Seq<char>, u64)>, i: int)
    requires
        p.stage is Checking,
        0 <= i < list.len(),
        list[i].0 == p.stage->Checking_mint_url,
        forall|j: int| 0 <= j < i ==> (#[trigger] list[j]).0 != p.stage->Checking_mint_url,
    ensures
        list[i].1 >= p.amount ==> send_step(p, Happened::Balances(list)) == (
            Payment {
                amount: p.amount,
                unit: p.unit,
                stage: Stage::Creating { mint_url: p.stage->Checking_mint_url },
            },
            Order::CreateToken(p.amount),
        ),
        list[i].1 < p.amount ==> send_step(p, Happened::Balances(list)) == (
            Payment { amount: p.amount, unit: p.unit, stage: Stage::Over },
            Order::Fail(
                Failure::InsufficientBalance {
                    available: list[i].1,
                    requested: p.amount,
                    unit: p.unit,
                },
            ),
        ),
{
    funds_are_what_is_listed(list, p.stage->Checking_mint_url, i);
}

/// A mint that is not listed has nothing: it pays nothing but zero.
pub proof fn unlisted_mints_have_no_funds(p: Payment, list: Seq<(Seq<char>, u64)>)
    requires
        p.stage is Checking,
        forall|j: int|
            0 <= j < list.len() ==> (#[trigger] list[j]).0 != p.stage->Checking_mint_url,
    ensures
        p.amount == 0 ==> send_step(p, Happened::Balances(list)).1 == Order::CreateToken(0),
        p.amount > 0 ==> send_step(p, Happened::Balances(list)) == (
            Payment { amount: p.amount, unit: p.unit, stage: Stage::Over },
            Order::Fail(
                Failure::InsufficientBalance {
                    available: 0,
                    requested: p.amount,
                    unit: p.unit,
                },
            ),
        ),
{
    funds_are_what_is_listed(list, p.stage->Checking_mint_url, 0);
}

/// A payment fails for want of funds only where the mint has less than the amount, and the failure
/// says how much there is and how much was asked for.
pub proof fn only_missing_funds_are_insufficient(
    p: Payment,
    e: Happened,
    available: u64,
    requested: u64,
    unit: Seq<char>,
)
    requires
        send_step(p, e).1 == Order::Fail(
            Failure::InsufficientBalance { available, requested, unit },
        ),
    ensures
        available < requested,
        requested == p.amount,
        unit == p.unit,
        p.stage is Checking,
        e is Balances,
        available > 0 ==> exists|i: int|
            #![trigger e->Balances_0[i]]
            0 <= i < e->Balances_0.len() && e->Balances_0[i] == (
                p.stage->Checking_mint_url,
                available,
            ),
{
    let list = e->Balances_0;
    let url = p.stage->Checking_mint_url;
    if available > 0 {
        let i = choose|i: int| is_entry(list, url, i);
        assert(is_entry(list, url, i));
        assert(list[i] == (url, available));
    }
}

/// Where the user names no mint, the first in the list with the amount or more is opened; where there
/// is none, the payment fails and says so.
pub proof fn the_first_mint_that_can_pays(p: Payment, list: Seq<(Seq<char>, u64)>, i: int)
    requires
        p.stage is Choosing,
    ensures
        0 <= i < list.len() && list[i].1 >= p.amount && (forall|j: int|
            0 <= j < i ==> (#[trigger] list[j]).1 < p.amount) ==> send_step(
            p,
            Happened::Balances(list),
        ) == (
            Payment { amount: p.amount, unit: p.unit, stage: Stage::Opening },
            Order::OpenWallet(list[i].0),
        ),
        (forall|j: int| 0 <= j < list.len() ==> (#[trigger] list[j]).1 < p.amount) ==> send_step(
            p,
            Happened::Balances(list),
        ) == (
            Payment { amount: p.amount, unit: p.unit, stage: Stage::Over },
            Order::Fail(Failure::NoMintWithBalance { amount: p.amount, unit: p.unit }),
        ),
{
    if 0 <= i < list.len() && list[i].1 >= p.amount && (forall|j: int|
        0 <= j < i ==> (#[trigger] list[j]).1 < p.amount) {
        assert(is_first_with(list, p.amount, i));
        lemma_first_with(list, p.amount, i);
    }
    if forall|j: int| 0 <= j < list.len() ==> (#[trigger] list[j]).1 < p.amount {
        assert forall|k: int| !is_first_with(list, p.amount, k) by {
            if is_first_with(list, p.amount, k) {
                assert(list[k].1 < p.amount);
            }
        }
        assert(first_mint_with(list, p.amount) is None);
    }
}

/// A payment at a mint that the user names, from its beginning to the report: the wallet is opened,
/// the balances are asked for, the token is created where there are enough funds, and the report
/// names the amount, its unit and the mint that was opened.
pub proof fn payments_run_to_their_report(
    amount: u64,
    unit: Seq<char>,
    url: Seq<char>,
    opened: Seq<char>,
    list: Seq<(Seq<char>, u64)>,
    i: int,
)
    requires
        0 <= i < list.len(),
        list[i].0 == opened,
        list[i].1 >= amount,
        forall|j: int| 0 <= j < i ==> (#[trigger] list[j]).0 != opened,
    ensures
        ({
            let begun = send_begin(amount, unit, Some(Some(url)));
            let open = send_step(begun.0, Happened::Opened(opened));
            let covered = send_step(open.0, Happened::Balances(list));
            let paid = send_step(covered.0, Happened::Created);
            &&& begun.1 == Order::OpenWallet(url)
            &&& open.1 == Order::FetchBalances
            &&& covered.1 == Order::CreateToken(amount)
            &&& paid.1 == Order::Report(
                "📤 Token created successfully!\nAmount: "@ + (decimal_text(amount as nat) + " "@
                    + unit) + "\nMint: "@ + opened + "\n"@,
            )
            &&& paid.0.stage is Over
        }),
{
    funds_are_what_is_listed(list, opened, i);
}

/// How a payment begins: at the mint that the user names, with a refusal where that is no address,
/// and with a look at the balances where they name none.
pub proof fn payments_begin_at_the_named_mint(amount: u64, unit: Seq<char>, url: Seq<char>)
    ensures
        send_begin(amount, unit, Some(Some(url))) == (
            Payment { amount, unit, stage: Stage::Opening },
            Order::OpenWallet(url),
        ),
        send_begin(amount, unit, Some(None)) == (
            Payment { amount, unit, stage: Stage::Over },
            Order::Fail(Failure::InvalidMintUrl),
        ),
        send_begin(amount, unit, None) == (
            Payment { amount, unit, stage: Stage::Choosing },
            Order::FetchBalances,
        ),
{
}

/// Only what was asked for moves a payment on; anything else leaves it where it is.
pub proof fn payments_wait_for_what_they_asked_for(p: Payment, e: Happened)
    ensures
        send_step(p, e).1 is Wait <==> !(match p.stage {
            Stage::Choosing => e is Balances,
            Stage::Opening => e is Opened,
            Stage::Checking { .. } => e is Balances,
            Stage::Creating { .. } => e is Created,
            Stage::Over => false,
        }),
        send_step(p, e).1 is Wait ==> send_step(p, e).0 == p,
{
}

/// A token goes to the chat behind `cashu:`, and the user is told what became of it.
pub proof fn tokens_go_to_the_chat(token: Seq<char>, reason: Seq<char>)
    ensures
        token_message(token) == "cashu:"@ + token,
        chat_text(None) == "✅ Cashu token sent to chat!\n"@,
        chat_text(Some(reason)) == "\x1b[91m❌ Failed to send message: "@ + reason + "\x1b[0m\n"@,
        token_failure_text(reason) == "\x1b[91m❌ Failed to create cashu token: "@ + reason
            + "\x1b[0m\n"@,
{
}

} // verus!
