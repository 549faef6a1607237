//! What holds of minting, of the search for a wallet, and of mints that are known or deleted.

use vstd::prelude::*;

use crate::cashu_wallet::balance::{best_mint, is_best, lemma_best};
use crate::cashu_wallet::delete::{doomed, units_of};
use crate::cashu_wallet::error::Failure;
use crate::cashu_wallet::info;
use crate::cashu_wallet::mint::{mint_begin, mint_step, sum, Happened, Minting, Order, Stage};
use crate::cashu_wallet::search::{search_step, Learned, Next, Search};
use crate::cashu_wallet::setup::all_wallets;
use crate::text::decimal_text;

verus! {

/// How minting begins: at the mint that the user names, with a refusal where that is no address,
/// and with the search for a wallet where they name none.
pub proof fn minting_begins_at_the_named_mint(amount: u64, unit: Seq<char>, url: Seq<char>)
    ensures
        mint_begin(amount, unit, Some(Some(url))) == (
            Minting { amount, unit, stage: Stage::Opening },
            Order::OpenWallet(url),
        ),
        mint_begin(amount, unit, Some(None)) == (
            Minting { amount, unit, stage: Stage::Over },
            Order::Fail(Failure::InvalidMintUrl),
        ),
        mint_begin(amount, unit, None) == (
            Minting { amount, unit, stage: Stage::Opening },
            Order::FindWallet,
        ),
        mint_step(Minting { amount, unit, stage: Stage::Opening }, Happened::NoWallet) == (
            Minting { amount, unit, stage: Stage::Over },
            Order::Fail(Failure::NoWalletForUnit { unit }),
        ),
{
}

/// Minting from its beginning to the report: a quote of the amount is asked for and reported, nothing
/// happens while it is not paid, the tokens of that quote are asked for once it is, and the report
/// names what they come to, the unit and the mint that was opened.
pub proof fn minting_runs_to_its_report(
    amount: u64,
    unit: Seq<char>,
    mint: Option<Option<Seq<char>>>,
    opened: Seq<char>,
    id: Seq<char>,
    request: Seq<char>,
    amounts: Seq<u64>,
)
    requires
        mint != Some(None::<Seq<char>>),
    ensures
        ({
            let begun = mint_begin(amount, unit, mint);
            let open = mint_step(begun.0, Happened::Opened(opened));
            let quoted = mint_step(open.0, Happened::Quote { id, request });
            let unpaid = mint_step(quoted.0, Happened::Notice { paid: false });
            let paid = mint_step(unpaid.0, Happened::Notice { paid: true });
            let silent = mint_step(unpaid.0, Happened::NoticesEnded);
            let minted = mint_step(paid.0, Happened::Minted(amounts));
            &&& open.1 == Order::RequestQuote(amount)
            &&& quoted.1 == (Order::Subscribe {
                report: "🏦 Mint quote created:\nQuote ID: "@ + id + "\nAmount: "@ + (decimal_text(
                    amount as nat,
                ) + " "@ + unit) + "\nPayment request: "@ + request
                    + "\nPlease pay this invoice to mint tokens\n⏳ Waiting for payment...\n"@,
                quote_id: id,
            })
            &&& unpaid == (quoted.0, Order::Listen)
            &&& paid.1 == (Order::MintTokens { report: "✅ Payment received!\n"@, quote_id: id })
            &&& silent == (paid.0, Order::MintTokens { report: ""@, quote_id: id })
            &&& sum(amounts) <= u64::MAX ==> minted.1 == Order::Report(
                "🎉 Successfully minted "@ + (decimal_text(sum(amounts)) + " "@ + unit) + " from "@
                    + opened + "\n"@,
            )
            &&& minted.0.stage is Over
        }),
{
}

/// Only what was asked for moves minting on; anything else leaves it where it is.
pub proof fn minting_waits_for_what_it_asked_for(m: Minting, e: Happened)
    ensures
        mint_step(m, e).1 is Wait <==> !(match m.stage {
            Stage::Opening => e is Opened || e is NoWallet,
            Stage::Quoting { .. } => e is Quote,
            Stage::Waiting { .. } => e is Notice || e is NoticesEnded,
            Stage::Minting { .. } => e is Minted,
            Stage::Over => false,
        }),
        mint_step(m, e).1 is Wait ==> mint_step(m, e).0 == m,
{
}

/// The amounts of tokens are added up: those of two lists together come to what the lists come to.
pub proof fn amounts_add_up(a: Seq<u64>, b: Seq<u64>, x: u64)
    ensures
        sum(Seq::empty()) == 0,
        sum(seq![x]) == x,
        sum(a + b) == sum(a) + sum(b),
    decreases b.len(),
{
    assert(seq![x].drop_last() =~= Seq::<u64>::empty());
    assert(sum(seq![x].drop_last()) == 0);
    if b.len() == 0 {
        assert(a + b =~= a);
    } else {
        amounts_add_up(a, b.drop_last(), x);
        assert((a + b).drop_last() =~= a + b.drop_last());
    }
}

/// The search first tries the mint that holds most, the first of them where several hold as much, and
/// none where no mint holds anything.
pub proof fn the_search_tries_the_richest_mint_first(list: Seq<(Seq<char>, u64)>, i: int)
    ensures
        0 <= i < list.len() && list[i].1 > 0 && (forall|j: int|
            0 <= j < list.len() ==> (#[trigger] list[j]).1 <= list[i].1) && (forall|j: int|
            0 <= j < i ==> (#[trigger] list[j]).1 < list[i].1) ==> search_step(
            Search::AwaitingBalances,
            Learned::Balances(list),
        ) == (Search::TryingBest, Next::LookUp(list[i].0)),
        (forall|j: int| 0 <= j < list.len() ==> (#[trigger] list[j]).1 == 0) ==> search_step(
            Search::AwaitingBalances,
            Learned::Balances(list),
        ) == (Search::AwaitingMints, Next::FetchMints),
{
    if 0 <= i < list.len() && list[i].1 > 0 && (forall|j: int|
        0 <= j < list.len() ==> (#[trigger] list[j]).1 <= list[i].1) && (forall|j: int|
        0 <= j < i ==> (#[trigger] list[j]).1 < list[i].1) {
        assert(is_best(list, i));
        lemma_best(list, i);
    }
    if forall|j: int| 0 <= j < list.len() ==> (#[trigger] list[j]).1 == 0 {
        assert forall|k: int| !is_best(list, k) by {
            if is_best(list, k) {
                assert(list[k].1 == 0);
            }
        }
        assert(best_mint(list) is None);
    }
}

/// After the mint that holds most the search tries every known mint in turn, from the first, until
/// one has a wallet or there are no more.
pub proof fn the_search_tries_every_mint_in_turn(mints: Seq<Seq<char>>, n: int)
    requires
        0 <= n,
    ensures
        search_step(Search::TryingBest, Learned::Found) == (Search::Over, Next::UseWallet),
        search_step(Search::TryingBest, Learned::Missing) == (
            Search::AwaitingMints,
            Next::FetchMints,
        ),
        mints.len() > 0 ==> search_step(Search::AwaitingMints, Learned::Mints(mints)) == (
            Search::Trying { mints, next: 0 },
            Next::LookUp(mints[0]),
        ),
        mints.len() == 0 ==> search_step(Search::AwaitingMints, Learned::Mints(mints)) == (
            Search::Over,
            Next::GiveUp,
        ),
        search_step(Search::Trying { mints, next: n }, Learned::Found) == (
            Search::Over,
            Next::UseWallet,
        ),
        n + 1 < mints.len() ==> search_step(Search::Trying { mints, next: n }, Learned::Missing)
            == (Search::Trying { mints, next: n + 1 }, Next::LookUp(mints[n + 1])),
        n + 1 >= mints.len() ==> search_step(Search::Trying { mints, next: n }, Learned::Missing)
            == (Search::Over, Next::GiveUp),
{
}

/// Only what was asked for moves the search on; anything else leaves it where it is.
pub proof fn the_search_waits_for_what_it_asked_for(s: Search, e: Learned)
    ensures
        search_step(s, e).1 is Wait <==> !(match s {
            Search::AwaitingBalances => e is Balances,
            Search::TryingBest => e is Found || e is Missing,
            Search::AwaitingMints => e is Mints,
            Search::Trying { .. } => e is Found || e is Missing,
            Search::Over => false,
        }),
        search_step(s, e).1 is Wait ==> search_step(s, e).0 == s,
{
}

/// Which mint is asked what it says of itself: the one that the user names, or one with a wallet; what
/// is no address is refused.
pub proof fn the_named_mint_is_asked(url: Seq<char>)
    ensures
        info::info_begin(Some(Some(url))) == info::Order::Ask(url),
        info::info_begin(Some(None)) == info::Order::Fail(Failure::InvalidMintUrl),
        info::info_begin(None) == info::Order::FindWallet,
{
}

/// Which wallets are deleted is decided unit by unit: those with funds go, with what they hold; those
/// that are listed empty stay; and one that is not listed goes where it is there all the same.
pub proof fn deletion_is_decided_unit_by_unit(
    a: Seq<(Seq<char>, Option<u64>, bool)>,
    b: Seq<(Seq<char>, Option<u64>, bool)>,
    unit: Seq<char>,
    balance: u64,
    has_wallet: bool,
)
    ensures
        doomed(a + b) == doomed(a) + doomed(b),
        balance > 0 ==> doomed(seq![(unit, Some(balance), has_wallet)]) == seq![(unit, balance)],
        doomed(seq![(unit, Some(0u64), has_wallet)]) == Seq::<(Seq<char>, u64)>::empty(),
        doomed(seq![(unit, None::<u64>, true)]) == seq![(unit, 0u64)],
        doomed(seq![(unit, None::<u64>, false)]) == Seq::<(Seq<char>, u64)>::empty(),
    decreases b.len(),
{
    let funded = seq![(unit, Some(balance), has_wallet)];
    let empty = seq![(unit, Some(0u64), has_wallet)];
    let unlisted = seq![(unit, None::<u64>, true)];
    let absent = seq![(unit, None::<u64>, false)];
    assert(doomed(funded.drop_last()) =~= Seq::<(Seq<char>, u64)>::empty());
    assert(doomed(empty.drop_last()) =~= Seq::<(Seq<char>, u64)>::empty());
    assert(doomed(unlisted.drop_last()) =~= Seq::<(Seq<char>, u64)>::empty());
    assert(doomed(absent.drop_last()) =~= Seq::<(Seq<char>, u64)>::empty());
    if balance > 0 {
        assert(doomed(funded) =~= seq![(unit, balance)]);
    }
    assert(doomed(unlisted) =~= seq![(unit, 0u64)]);
    if b.len() == 0 {
        assert(a + b =~= a);
        assert(doomed(a) + doomed(b) =~= doomed(a));
    } else {
        deletion_is_decided_unit_by_unit(a, b.drop_last(), unit, balance, has_wallet);
        assert((a + b).drop_last() =~= a + b.drop_last());
        assert(doomed(a + b) =~= doomed(a) + doomed(b));
    }
}

/// The units that are deleted are those of the wallets, in their order.
pub proof fn deleted_units_are_those_of_the_wallets(wallets: Seq<(Seq<char>, u64)>, i: int)
    ensures
        units_of(wallets).len() == wallets.len(),
        0 <= i < wallets.len() ==> units_of(wallets)[i] == wallets[i].0,
{
}

/// A wallet is built for each unit of each mint, in the order of the mints and of their units; a mint
/// that has not said which units it has gets one for `sat`.
pub proof fn wallets_are_built_mint_by_mint(
    a: Seq<(Seq<char>, Option<Seq<Seq<char>>>)>,
    b: Seq<(Seq<char>, Option<Seq<Seq<char>>>)>,
    mint: Seq<char>,
    units: Seq<Seq<char>>,
)
    ensures
        all_wallets(a + b) == all_wallets(a) + all_wallets(b),
        all_wallets(seq![(mint, None::<Seq<Seq<char>>>)]) == seq![(mint, "sat"@)],
        all_wallets(seq![(mint, Some(units))]).len() == units.len(),
        forall|i: int|
            0 <= i < units.len() ==> #[trigger] all_wallets(seq![(mint, Some(units))])[i] == (
                mint,
                units[i],
            ),
    decreases b.len(),
{
    let silent = seq![(mint, None::<Seq<Seq<char>>>)];
    let known = seq![(mint, Some(units))];
    assert(all_wallets(silent.drop_last()) =~= Seq::<(Seq<char>, Seq<char>)>::empty());
    assert(all_wallets(known.drop_last()) =~= Seq::<(Seq<char>, Seq<char>)>::empty());
    assert(all_wallets(silent) =~= seq![(mint, "sat"@)]);
    assert(all_wallets(known) =~= units.map_values(|unit: Seq<char>| (mint, unit)));
    if b.len() == 0 {
        assert(a + b =~= a);
        assert(all_wallets(a) + all_wallets(b) =~= all_wallets(a));
    } else {
        wallets_are_built_mint_by_mint(a, b.drop_last(), mint, units);
        assert((a + b).drop_last() =~= a + b.drop_last());
        assert(all_wallets(a + b) =~= all_wallets(a) + all_wallets(b));
    }
}

} // verus!
