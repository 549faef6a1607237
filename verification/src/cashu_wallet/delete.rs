//! Deleting a mint: which of its wallets go, and what is said before and after.

use vstd::prelude::*;

use crate::cashu_wallet::balance::{lemma_total_grows, total};
use crate::cashu_wallet::error::{price, priced};
use crate::text::{concat_rows, decimal, decimal_text, join3, texts};

verus! {

/// The currency units that are looked at.
pub fn deletable_units() -> (r: Vec<&'static str>)
    ensures
        r@.len() == 5,
        r@[0]@ == "sat"@,
        r@[1]@ == "msat"@,
        r@[2]@ == "usd"@,
        r@[3]@ == "eur"@,
        r@[4]@ == "auth"@,
{
    vec!["sat", "msat", "usd", "eur", "auth"]
}

/// What is known of one unit at the mint.
#[derive(Debug)]
pub struct Holding {
    pub unit: String,
    /// The balance, where the mint is listed with one.
    pub balance: Option<u64>,
    /// Whether there is a wallet for the unit.
    pub has_wallet: bool,
}

/// What is known of one unit, as a mathematical value.
pub open spec fn holding_view(h: Holding) -> (Seq<char>, Option<u64>, bool) {
    (h.unit@, h.balance, h.has_wallet)
}

/// Whether the wallet for a unit is deleted: it is where there are funds, or where the mint is not
/// listed and there is a wallet all the same.
pub open spec fn goes(h: (Seq<char>, Option<u64>, bool)) -> bool {
    match h.1 {
        Some(balance) => balance > 0,
        None => h.2,
    }
}

/// The balance of a wallet that is deleted.
pub open spec fn lost(h: (Seq<char>, Option<u64>, bool)) -> u64 {
    match h.1 {
        Some(balance) => balance,
        None => 0,
    }
}

/// The wallets that are deleted, with their balances.
pub open spec fn doomed(holdings: Seq<(Seq<char>, Option<u64>, bool)>) -> Seq<(Seq<char>, u64)>
    decreases holdings.len(),
{
    if holdings.len() == 0 {
        Seq::empty()
    } else {
        let head = doomed(holdings.drop_last());
        let h = holdings.last();
        if goes(h) {
            head.push((h.0, lost(h)))
        } else {
            head
        }
    }
}

/// The line for a wallet that is deleted.
pub open spec fn doomed_row(wallet: (Seq<char>, u64)) -> Seq<char> {
    if wallet.1 > 0 {
        "  🔥 \x1b[91m"@ + priced(wallet.1, wallet.0)
            + "\x1b[0m - \x1b[93mFUNDS WILL BE LOST!\x1b[0m\n"@
    } else {
        "  📦 "@ + priced(wallet.1, wallet.0) + " (empty wallet)\n"@
    }
}

/// What is said before wallets are deleted.
pub open spec fn warning_text(mint_url: Seq<char>, wallets: Seq<(Seq<char>, u64)>) -> Seq<char> {
    "\n⚠️  \x1b[91mWARNING: You are about to PERMANENTLY DELETE mint: "@ + mint_url
        + "\x1b[0m\nThis will remove the following wallets and their balances:\n"@ + concat_rows(
        wallets.len(),
        |i: int| doomed_row(wallets[i]),
    ) + (if total(wallets) > 0 {
        "\n\x1b[91m💀 TOTAL FUNDS THAT WILL BE LOST: "@ + decimal_text(total(wallets))
            + " sats equivalent\x1b[0m\n"@
    } else {
        ""@
    }) + "\n🔥 \x1b[91mProceeding with deletion...\x1b[0m\n"@
}

/// What is said where there is nothing to delete.
pub open spec fn nothing_text(mint_url: Seq<char>) -> Seq<char> {
    "❌ No wallets found for mint: "@ + mint_url + "\n"@
}

/// What is said after wallets were deleted.
pub open spec fn deleted_text(mint_url: Seq<char>, count: nat) -> Seq<char> {
    "✅ Successfully deleted "@ + decimal_text(count) + " wallet(s) for mint: "@ + mint_url + "\n"@
}

/// What is to be done to delete a mint.
#[derive(Debug)]
pub enum Deletion {
    /// Nothing but to say so.
    Nothing { report: String },
    /// Say this, then delete the wallets for these units and the mint itself.
    Wallets { report: String, units: Vec<String> },
}

/// The units of wallets.
pub open spec fn units_of(wallets: Seq<(Seq<char>, u64)>) -> Seq<Seq<char>> {
    wallets.map_values(|w: (Seq<char>, u64)| w.0)
}

/// No funds are passed over: the units with a balance are all among those that are deleted.
pub proof fn funded_wallets_are_named(
    holdings: Seq<(Seq<char>, Option<u64>, bool)>,
    i: int,
)
    requires
        0 <= i < holdings.len(),
        lost(holdings[i]) > 0,
    ensures
        doomed(holdings).contains((holdings[i].0, lost(holdings[i]))),
    decreases holdings.len(),
{
    let head = doomed(holdings.drop_last());
    let n = holdings.len() - 1;
    if i == n {
        assert(doomed(holdings)[head.len() as int] == (holdings[i].0, lost(holdings[i])));
    } else {
        funded_wallets_are_named(holdings.drop_last(), i);
        let k = choose|k: int|
            0 <= k < head.len() && head[k] == (holdings[i].0, lost(holdings[i]));
        assert(doomed(holdings)[k] == head[k]);
    }
}

/// The wallets that are deleted, with their balances.
fn find_doomed(holdings: &Vec<Holding>) -> (r: Vec<(String, u64)>)
    ensures
        r@.map_values(|w: (String, u64)| (w.0@, w.1)) == doomed(
            holdings@.map_values(|h: Holding| holding_view(h)),
        ),
{
    let ghost all = holdings@.map_values(|h: Holding| holding_view(h));
    let ghost shape = |w: (String, u64)| (w.0@, w.1);
    let mut list: Vec<(String, u64)> = Vec::new();
    let mut i: usize = 0;
    proof {
        assert(all.take(0).len() == 0);
        assert(list@.map_values(shape) =~= Seq::<(Seq<char>, u64)>::empty());
    }
    while i < holdings.len()
        invariant
            i <= holdings@.len(),
            all == holdings@.map_values(|h: Holding| holding_view(h)),
            shape == (|w: (String, u64)| (w.0@, w.1)),
            list@.map_values(shape) == doomed(all.take(i as int)),
        decreases holdings@.len() - i,
    {
        let ghost before = list@;
        proof {
            assert(all.take(i + 1).drop_last() =~= all.take(i as int));
            assert(all.take(i + 1).last() == holding_view(holdings@[i as int]));
        }
        let (found, balance) = match holdings[i].balance {
            Some(amount) => (amount > 0, amount),
            None => (holdings[i].has_wallet, 0u64),
        };
        if found {
            let unit: String = holdings[i].unit.clone();
            list.push((unit, balance));
            assert(list@.map_values(shape) =~= before.map_values(shape).push((unit@, balance)));
        }
        i = i + 1;
    }
    assert(all.take(i as int) =~= all);
    list
}

/// What is to be done to delete the mint `mint_url`, of whose units `holdings` is known.
pub fn plan_deletion(mint_url: &str, holdings: &Vec<Holding>) -> (r: Deletion)
    requires
        total(doomed(holdings@.map_values(|h: Holding| holding_view(h)))) <= u64::MAX,
    ensures
        ({
            let wallets = doomed(holdings@.map_values(|h: Holding| holding_view(h)));
            if wallets.len() == 0 {
                r matches Deletion::Nothing { report } && report@ == nothing_text(mint_url@)
            } else {
                r matches Deletion::Wallets { report, units } && report@ == warning_text(
                    mint_url@,
                    wallets,
                ) && texts(units@) == units_of(wallets)
            }
        }),
{
    let list: Vec<(String, u64)> = find_doomed(holdings);
    let ghost wallets = doomed(holdings@.map_values(|h: Holding| holding_view(h)));
    if list.len() == 0 {
        return Deletion::Nothing {
            report: join3("❌ No wallets found for mint: ", mint_url, "\n"),
        };
    }
    let ghost row = |i: int| doomed_row(wallets[i]);
    let mut report: String = join3(
        "\n⚠️  \x1b[91mWARNING: You are about to PERMANENTLY DELETE mint: ",
        mint_url,
        "\x1b[0m\nThis will remove the following wallets and their balances:\n",
    );
    let ghost head = report@;
    let mut units: Vec<String> = Vec::new();
    let mut sum: u64 = 0;
    let mut i: usize = 0;
    proof {
        assert(wallets.take(0).len() == 0);
        assert(report@ =~= head + concat_rows(0, row));
        assert(texts(units@) =~= units_of(wallets.take(0)));
    }
    while i < list.len()
        invariant
            i <= list@.len(),
            wallets == list@.map_values(|w: (String, u64)| (w.0@, w.1)),
            row == (|i: int| doomed_row(wallets[i])),
            total(wallets) <= u64::MAX,
            sum == total(wallets.take(i as int)),
            report@ == head + concat_rows(i as nat, row),
            texts(units@) == units_of(wallets.take(i as int)),
        decreases list@.len() - i,
    {
        let ghost before = report@;
        let ghost known = units@;
        let balance: u64 = list[i].1;
        proof {
            assert(wallets[i as int] == (list@[i as int].0@, balance));
            assert(wallets.take(i + 1).drop_last() =~= wallets.take(i as int));
            assert(wallets.take(i + 1).last() == wallets[i as int]);
            lemma_total_grows(wallets, i + 1);
        }
        let priced_balance: String = price(balance, list[i].0.as_str());
        let line: String = if balance > 0 {
            join3(
                "  🔥 \x1b[91m",
                priced_balance.as_str(),
                "\x1b[0m - \x1b[93mFUNDS WILL BE LOST!\x1b[0m\n",
            )
        } else {
            join3("  📦 ", priced_balance.as_str(), " (empty wallet)\n")
        };
        report.append(line.as_str());
        sum = sum + balance;
        let unit: String = list[i].0.clone();
        units.push(unit);
        proof {
            assert(report@ =~= before + row(i as int));
            assert(concat_rows((i + 1) as nat, row) =~= concat_rows(i as nat, row) + row(i as int));
            assert(texts(units@) =~= texts(known).push(unit@));
            assert(units_of(wallets.take(i + 1)) =~= units_of(wallets.take(i as int)).push(unit@));
        }
        i = i + 1;
    }
    assert(wallets.take(i as int) =~= wallets);
    let losses: String = if sum > 0 {
        join3(
            "\n\x1b[91m💀 TOTAL FUNDS THAT WILL BE LOST: ",
            decimal(sum as u128).as_str(),
            " sats equivalent\x1b[0m\n",
        )
    } else {
        "".to_string()
    };
    report.append(losses.as_str());
    report.append("\n🔥 \x1b[91mProceeding with deletion...\x1b[0m\n");
    Deletion::Wallets { report, units }
}

/// What is said after `count` wallets of a mint were deleted.
pub fn deletion_report(mint_url: &str, count: usize) -> (r: String)
    ensures
        r@ == deleted_text(mint_url@, count as nat),
{
    let mut text: String = join3(
        "✅ Successfully deleted ",
        decimal(count as u128).as_str(),
        " wallet(s) for mint: ",
    );
    text.append(mint_url);
    text.append("\n");
    text
}

} // verus!
