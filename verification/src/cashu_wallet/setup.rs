//! The wallets that are there when the program starts.

use vstd::prelude::*;

use crate::text::texts;

verus! {

/// A mint that the wallet knows, and the units that it supports, if it has said which.
#[derive(Debug)]
pub struct KnownMint {
    pub mint_url: String,
    pub units: Option<Vec<String>>,
}

/// A known mint, as a mathematical value.
pub open spec fn known_view(mint: KnownMint) -> (Seq<char>, Option<Seq<Seq<char>>>) {
    (
        mint.mint_url@,
        match mint.units {
            Some(units) => Some(texts(units@)),
            None => None,
        },
    )
}

/// The units of a mint: `sat` where it has not said which.
pub open spec fn mint_units(units: Option<Seq<Seq<char>>>) -> Seq<Seq<char>> {
    match units {
        Some(list) => list,
        None => seq!["sat"@],
    }
}

/// One wallet for each unit of a mint.
pub open spec fn mint_wallets(mint: (Seq<char>, Option<Seq<Seq<char>>>)) -> Seq<
    (Seq<char>, Seq<char>),
> {
    mint_units(mint.1).map_values(|unit: Seq<char>| (mint.0, unit))
}

/// One wallet for each mint and each of its units.
pub open spec fn all_wallets(mints: Seq<(Seq<char>, Option<Seq<Seq<char>>>)>) -> Seq<
    (Seq<char>, Seq<char>),
>
    decreases mints.len(),
{
    if mints.len() == 0 {
        Seq::empty()
    } else {
        all_wallets(mints.drop_last()) + mint_wallets(mints.last())
    }
}

/// A list of mints and units as texts.
pub open spec fn wallets_view(list: Seq<(String, String)>) -> Seq<(Seq<char>, Seq<char>)> {
    list.map_values(|w: (String, String)| (w.0@, w.1@))
}

/// Appends one wallet for each unit of a mint.
fn append_wallets(list: &mut Vec<(String, String)>, mint_url: &String, units: &Vec<String>)
    ensures
        wallets_view(final(list)@) == wallets_view(old(list)@) + mint_wallets(
            (mint_url@, Some(texts(units@))),
        ),
{
    let ghost start = wallets_view(list@);
    let ghost wanted = mint_wallets((mint_url@, Some(texts(units@))));
    let mut i: usize = 0;
    assert(wanted.take(0) =~= Seq::<(Seq<char>, Seq<char>)>::empty());
    assert(wallets_view(list@) =~= start + wanted.take(0));
    while i < units.len()
        invariant
            i <= units@.len(),
            wanted == mint_wallets((mint_url@, Some(texts(units@)))),
            wallets_view(list@) == start + wanted.take(i as int),
        decreases units@.len() - i,
    {
        let ghost before = list@;
        list.push((mint_url.clone(), units[i].clone()));
        proof {
            assert(wanted[i as int] == (mint_url@, units@[i as int]@));
            assert(wallets_view(list@) =~= wallets_view(before).push(wanted[i as int]));
            assert(wanted.take(i + 1) =~= wanted.take(i as int).push(wanted[i as int]));
        }
        i = i + 1;
        assert(wallets_view(list@) =~= start + wanted.take(i as int));
    }
    assert(wanted.take(i as int) =~= wanted);
}

/// The wallets to build for the mints that are known: one for each unit of each.
pub fn wallets_to_build(mints: &Vec<KnownMint>) -> (r: Vec<(String, String)>)
    ensures
        wallets_view(r@) == all_wallets(mints@.map_values(|m: KnownMint| known_view(m))),
{
    let ghost known = mints@.map_values(|m: KnownMint| known_view(m));
    let mut list: Vec<(String, String)> = Vec::new();
    let mut i: usize = 0;
    proof {
        assert(known.take(0).len() == 0);
        assert(wallets_view(list@) =~= Seq::<(Seq<char>, Seq<char>)>::empty());
    }
    while i < mints.len()
        invariant
            i <= mints@.len(),
            known == mints@.map_values(|m: KnownMint| known_view(m)),
            wallets_view(list@) == all_wallets(known.take(i as int)),
        decreases mints@.len() - i,
    {
        proof {
            assert(known.take(i + 1).drop_last() =~= known.take(i as int));
            assert(known.take(i + 1).last() == known_view(mints@[i as int]));
        }
        match &mints[i].units {
            Some(units) => append_wallets(&mut list, &mints[i].mint_url, units),
            None => {
                let mut units: Vec<String> = Vec::new();
                units.push("sat".to_string());
                assert(texts(units@) =~= seq!["sat"@]);
                append_wallets(&mut list, &mints[i].mint_url, &units);
            },
        }
        i = i + 1;
    }
    assert(known.take(i as int) =~= known);
    list
}

} // verus!
