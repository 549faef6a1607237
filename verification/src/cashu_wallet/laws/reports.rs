//! What holds of the wallet's reports.

use vstd::prelude::*;

use crate::cashu_wallet::balance::{balance_text, total};
use crate::cashu_wallet::delete::{deleted_text, nothing_text, warning_text};
use crate::cashu_wallet::error::{error_text, priced, Failure};
use crate::text::{concat_rows, decimal_text, rows_join};

verus! {

/// Balances are added up: those of two lists together come to what the lists come to.
pub proof fn balances_add_up(
    a: Seq<(Seq<char>, u64)>,
    b: Seq<(Seq<char>, u64)>,
    mint_url: Seq<char>,
    amount: u64,
)
    ensures
        total(Seq::empty()) == 0,
        total(seq![(mint_url, amount)]) == amount,
        total(a + b) == total(a) + total(b),
    decreases b.len(),
{
    let one = seq![(mint_url, amount)];
    assert(one.drop_last() =~= Seq::<(Seq<char>, u64)>::empty());
    assert(total(one.drop_last()) == 0);
    if b.len() == 0 {
        assert(a + b =~= a);
    } else {
        balances_add_up(a, b.drop_last(), mint_url, amount);
        assert((a + b).drop_last() =~= a + b.drop_last());
    }
}

/// An amount stands before its unit.
pub proof fn amounts_stand_before_their_unit(amount: u64, unit: Seq<char>)
    ensures
        priced(amount, unit) == decimal_text(amount as nat) + " "@ + unit,
{
}

/// The report on balances has a line for every mint that holds something, in their order, and ends
/// with what they hold together, or says that there is nothing.
pub proof fn balances_are_reported_mint_by_mint(list: Seq<(Seq<char>, u64)>, unit: Seq<char>)
    requires
        total(list) <= u64::MAX,
    ensures
        balance_text(list, unit) == "💰 Wallet Balances:\n"@ + concat_rows(
            list.len(),
            |i: int|
                if list[i].1 > 0 {
                    "  📍 "@ + list[i].0 + ": "@ + (decimal_text(list[i].1 as nat) + " "@ + unit)
                        + "\n"@
                } else {
                    ""@
                },
        ) + (if total(list) == 0 {
            "  No funds in any mint\n"@
        } else {
            "💰 Total Balance: "@ + (decimal_text(total(list)) + " "@ + unit) + "\n"@
        }),
{
    let f = |i: int| crate::cashu_wallet::balance::balance_row(list[i], unit);
    let h = |i: int|
        if list[i].1 > 0 {
            "  📍 "@ + list[i].0 + ": "@ + (decimal_text(list[i].1 as nat) + " "@ + unit) + "\n"@
        } else {
            ""@
        };
    rows_join(list.len(), 0, f, f, h);
    assert(concat_rows(list.len(), f) + concat_rows(0, f) =~= concat_rows(list.len(), f));
}

/// The warning before a mint is deleted has a line for every wallet that goes, says of each that
/// holds something that its funds are lost, and how much is lost in all, if anything is.
pub proof fn deletions_are_warned_of_wallet_by_wallet(
    mint_url: Seq<char>,
    wallets: Seq<(Seq<char>, u64)>,
)
    ensures
        warning_text(mint_url, wallets)
            == "\n⚠️  \x1b[91mWARNING: You are about to PERMANENTLY DELETE mint: "@ + mint_url
            + "\x1b[0m\nThis will remove the following wallets and their balances:\n"@
            + concat_rows(
            wallets.len(),
            |i: int|
                if wallets[i].1 > 0 {
                    "  🔥 \x1b[91m"@ + (decimal_text(wallets[i].1 as nat) + " "@ + wallets[i].0)
                        + "\x1b[0m - \x1b[93mFUNDS WILL BE LOST!\x1b[0m\n"@
                } else {
                    "  📦 "@ + (decimal_text(wallets[i].1 as nat) + " "@ + wallets[i].0)
                        + " (empty wallet)\n"@
                },
        ) + (if total(wallets) > 0 {
            "\n\x1b[91m💀 TOTAL FUNDS THAT WILL BE LOST: "@ + decimal_text(total(wallets))
                + " sats equivalent\x1b[0m\n"@
        } else {
            ""@
        }) + "\n🔥 \x1b[91mProceeding with deletion...\x1b[0m\n"@,
{
    let f = |i: int| crate::cashu_wallet::delete::doomed_row(wallets[i]);
    let h = |i: int|
        if wallets[i].1 > 0 {
            "  🔥 \x1b[91m"@ + (decimal_text(wallets[i].1 as nat) + " "@ + wallets[i].0)
                + "\x1b[0m - \x1b[93mFUNDS WILL BE LOST!\x1b[0m\n"@
        } else {
            "  📦 "@ + (decimal_text(wallets[i].1 as nat) + " "@ + wallets[i].0)
                + " (empty wallet)\n"@
        };
    rows_join(wallets.len(), 0, f, f, h);
    assert(concat_rows(wallets.len(), f) + concat_rows(0, f) =~= concat_rows(wallets.len(), f));
}

/// What is said after a deletion names the mint, and how many of its wallets went.
pub proof fn deletions_are_counted(mint_url: Seq<char>, count: nat)
    ensures
        nothing_text(mint_url) == "❌ No wallets found for mint: "@ + mint_url + "\n"@,
        deleted_text(mint_url, count) == "✅ Successfully deleted "@ + decimal_text(count)
            + " wallet(s) for mint: "@ + mint_url + "\n"@,
{
}

/// Every failure says what it is about, with the amounts and units as they are.
pub proof fn failures_are_explained(
    reason: Seq<char>,
    unit: Seq<char>,
    amount: u64,
    available: u64,
    requested: u64,
)
    ensures
        error_text(Failure::InvalidSeedPhrase { reason }) == reason,
        error_text(Failure::InvalidMintUrl) == "Invalid URL"@,
        error_text(Failure::InvalidAmount) == "Invalid amount"@,
        error_text(Failure::NoMintWithBalance { amount, unit })
            == "No mint found with sufficient balance of "@ + (decimal_text(amount as nat) + " "@
            + unit),
        error_text(Failure::InsufficientBalance { available, requested, unit })
            == "Insufficient balance. Available: "@ + (decimal_text(available as nat) + " "@
            + unit) + ", Requested: "@ + (decimal_text(requested as nat) + " "@ + unit),
        error_text(Failure::NoWalletForUnit { unit }) == "No wallets available for unit "@ + unit,
{
}

} // verus!
