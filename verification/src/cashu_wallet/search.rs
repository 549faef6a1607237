//! The search for a wallet to use where the user names no mint.

use vstd::prelude::*;

use crate::cashu_wallet::balance::{balance_view, best_mint, find_best_mint, Balance};
use crate::text::texts;

verus! {

/// How far the search has come.
#[derive(Debug)]
pub enum WalletSearch {
    /// The balances of all mints were asked for.
    AwaitingBalances,
    /// The wallet at the mint with the highest balance was asked for.
    TryingBest,
    /// The list of all known mints was asked for.
    AwaitingMints,
    /// The wallet at one of the known mints was asked for.
    Trying { mints: Vec<String>, next: usize },
    Over,
}

/// What was learned.
#[derive(Debug)]
pub enum SearchEvent {
    Balances(Vec<Balance>),
    Mints(Vec<String>),
    /// There is a wallet at the mint that was asked for.
    Found,
    /// There is no wallet at the mint that was asked for.
    Missing,
}

/// What is to be done next.
#[derive(Debug)]
pub enum SearchAction {
    FetchBalances,
    FetchMints,
    /// Look for a wallet at this mint.
    LookUp(String),
    /// Use the wallet that was found.
    UseWallet,
    /// There is no wallet.
    GiveUp,
    /// Nothing: what was learned is not what was asked for.
    Wait,
}

/// How far the search has come, as a mathematical value.
pub enum Search {
    AwaitingBalances,
    TryingBest,
    AwaitingMints,
    Trying { mints: Seq<Seq<char>>, next: int },
    Over,
}

/// What was learned, as a mathematical value.
pub enum Learned {
    Balances(Seq<(Seq<char>, u64)>),
    Mints(Seq<Seq<char>>),
    Found,
    Missing,
}

/// What is to be done next, as a mathematical value.
pub enum Next {
    FetchBalances,
    FetchMints,
    LookUp(Seq<char>),
    UseWallet,
    GiveUp,
    Wait,
}

impl View for WalletSearch {
    type V = Search;

    open spec fn view(&self) -> Search {
        match self {
            WalletSearch::AwaitingBalances => Search::AwaitingBalances,
            WalletSearch::TryingBest => Search::TryingBest,
            WalletSearch::AwaitingMints => Search::AwaitingMints,
            WalletSearch::Trying { mints, next } => Search::Trying {
                mints: texts(mints@),
                next: *next as int,
            },
            WalletSearch::Over => Search::Over,
        }
    }
}

impl View for SearchEvent {
    type V = Learned;

    open spec fn view(&self) -> Learned {
        match self {
            SearchEvent::Balances(list) => Learned::Balances(balance_view(list@)),
            SearchEvent::Mints(list) => Learned::Mints(texts(list@)),
            SearchEvent::Found => Learned::Found,
            SearchEvent::Missing => Learned::Missing,
        }
    }
}

impl View for SearchAction {
    type V = Next;

    open spec fn view(&self) -> Next {
        match self {
            SearchAction::FetchBalances => Next::FetchBalances,
            SearchAction::FetchMints => Next::FetchMints,
            SearchAction::LookUp(mint) => Next::LookUp(mint@),
            SearchAction::UseWallet => Next::UseWallet,
            SearchAction::GiveUp => Next::GiveUp,
            SearchAction::Wait => Next::Wait,
        }
    }
}

/// Asking for the wallet at the known mint number `next`, if there are so many.
pub open spec fn try_mint(mints: Seq<Seq<char>>, next: int) -> (Search, Next) {
    if next < mints.len() {
        (Search::Trying { mints, next }, Next::LookUp(mints[next]))
    } else {
        (Search::Over, Next::GiveUp)
    }
}

/// How the search goes on: first the mint with the highest balance is tried, then every known
/// mint in turn.
pub open spec fn search_step(s: Search, e: Learned) -> (Search, Next) {
    match (s, e) {
        (Search::AwaitingBalances, Learned::Balances(list)) => match best_mint(list) {
            Some(mint) => (Search::TryingBest, Next::LookUp(mint)),
            None => (Search::AwaitingMints, Next::FetchMints),
        },
        (Search::TryingBest, Learned::Found) => (Search::Over, Next::UseWallet),
        (Search::TryingBest, Learned::Missing) => (Search::AwaitingMints, Next::FetchMints),
        (Search::AwaitingMints, Learned::Mints(mints)) => try_mint(mints, 0),
        (Search::Trying { .. }, Learned::Found) => (Search::Over, Next::UseWallet),
        (Search::Trying { mints, next }, Learned::Missing) => try_mint(mints, next + 1),
        _ => (s, Next::Wait),
    }
}

/// A wallet that was found is used at once, and the search gives up only when it has tried every
/// known mint.
pub proof fn search_is_thorough(s: Search, e: Learned)
    ensures
        search_step(s, e).1 is UseWallet <==> e is Found && (s is TryingBest || s is Trying),
        search_step(s, e).1 is GiveUp ==> match s {
            Search::AwaitingMints => e == Learned::Mints(Seq::empty()),
            Search::Trying { mints, next } => e is Missing && next + 1 >= mints.len(),
            _ => false,
        },
        search_step(s, e).1 is UseWallet || search_step(s, e).1 is GiveUp ==> search_step(s, e).0
            is Over,
{
    if let Learned::Mints(mints) = e {
        if mints.len() == 0 {
            assert(mints =~= Seq::empty());
        }
    }
}

impl WalletSearch {
    /// The search begins with the balances.
    pub fn new() -> (r: (WalletSearch, SearchAction))
        ensures
            r.0@ == Search::AwaitingBalances,
            r.1@ == Next::FetchBalances,
    {
        (WalletSearch::AwaitingBalances, SearchAction::FetchBalances)
    }

    fn try_mint(mints: Vec<String>, next: usize) -> (r: (WalletSearch, SearchAction))
        ensures
            (r.0@, r.1@) == try_mint(texts(mints@), next as int),
    {
        if next < mints.len() {
            let mint: String = mints[next].clone();
            (WalletSearch::Trying { mints, next }, SearchAction::LookUp(mint))
        } else {
            (WalletSearch::Over, SearchAction::GiveUp)
        }
    }

    /// How the search goes on.
    pub fn next(self, event: SearchEvent) -> (r: (WalletSearch, SearchAction))
        ensures
            (r.0@, r.1@) == search_step(self@, event@),
    {
        match (self, event) {
            (WalletSearch::AwaitingBalances, SearchEvent::Balances(list)) => {
                match find_best_mint(&list) {
                    Some(mint) => (WalletSearch::TryingBest, SearchAction::LookUp(mint)),
                    None => (WalletSearch::AwaitingMints, SearchAction::FetchMints),
                }
            },
            (WalletSearch::TryingBest, SearchEvent::Found) => (
                WalletSearch::Over,
                SearchAction::UseWallet,
            ),
            (WalletSearch::TryingBest, SearchEvent::Missing) => (
                WalletSearch::AwaitingMints,
                SearchAction::FetchMints,
            ),
            (WalletSearch::AwaitingMints, SearchEvent::Mints(mints)) => Self::try_mint(mints, 0),
            (WalletSearch::Trying { .. }, SearchEvent::Found) => (
                WalletSearch::Over,
                SearchAction::UseWallet,
            ),
            (WalletSearch::Trying { mints, next }, SearchEvent::Missing) => {
                if next < mints.len() {
                    Self::try_mint(mints, next + 1)
                } else {
                    (WalletSearch::Over, SearchAction::GiveUp)
                }
            },
            (state, _) => (state, SearchAction::Wait),
        }
    }
}

} // verus!
