//! What the wallet does with the balances of its mints.

use vstd::prelude::*;

use crate::cashu_wallet::error::{price, priced};
use crate::text::{concat_rows, same_text};

verus! {

/// What the wallet holds at a mint.
#[derive(Debug)]
pub struct Balance {
    pub mint_url: String,
    pub amount: u64,
}

/// A list of balances as mints and amounts.
pub open spec fn balance_view(list: Seq<Balance>) -> Seq<(Seq<char>, u64)> {
    list.map_values(|b: Balance| (b.mint_url@, b.amount))
}

/// `i` is the first of the mints with the highest balance, and that is not zero.
pub open spec fn is_best(list: Seq<(Seq<char>, u64)>, i: int) -> bool {
    &&& 0 <= i < list.len()
    &&& list[i].1 > 0
    &&& forall|j: int| 0 <= j < list.len() ==> (#[trigger] list[j]).1 <= list[i].1
    &&& forall|j: int| 0 <= j < i ==> (#[trigger] list[j]).1 < list[i].1
}

/// The mint with the highest balance, if any has one.
pub open spec fn best_mint(list: Seq<(Seq<char>, u64)>) -> Option<Seq<char>> {
    if exists|i: int| is_best(list, i) {
        Some(list[choose|i: int| is_best(list, i)].0)
    } else {
        None
    }
}

/// `i` is the first of the mints with a balance of at least `amount`.
pub open spec fn is_first_with(list: Seq<(Seq<char>, u64)>, amount: u64, i: int) -> bool {
    &&& 0 <= i < list.len()
    &&& list[i].1 >= amount
    &&& forall|j: int| 0 <= j < i ==> (#[trigger] list[j]).1 < amount
}

/// The first mint with a balance of at least `amount`, if there is one.
pub open spec fn first_mint_with(list: Seq<(Seq<char>, u64)>, amount: u64) -> Option<Seq<char>> {
    if exists|i: int| is_first_with(list, amount, i) {
        Some(list[choose|i: int| is_first_with(list, amount, i)].0)
    } else {
        None
    }
}

/// `i` is the first entry for a mint.
pub open spec fn is_entry(list: Seq<(Seq<char>, u64)>, mint_url: Seq<char>, i: int) -> bool {
    &&& 0 <= i < list.len()
    &&& list[i].0 == mint_url
    &&& forall|j: int| 0 <= j < i ==> (#[trigger] list[j]).0 != mint_url
}

/// The balance at a mint, if it is listed.
pub open spec fn balance_at(list: Seq<(Seq<char>, u64)>, mint_url: Seq<char>) -> Option<u64> {
    if exists|i: int| is_entry(list, mint_url, i) {
        Some(list[choose|i: int| is_entry(list, mint_url, i)].1)
    } else {
        None
    }
}

/// The sum of all balances.
pub open spec fn total(list: Seq<(Seq<char>, u64)>) -> nat
    decreases list.len(),
{
    if list.len() == 0 {
        0
    } else {
        total(list.drop_last()) + list.last().1 as nat
    }
}

/// The line for one mint, where it has a balance.
pub open spec fn balance_row(entry: (Seq<char>, u64), unit: Seq<char>) -> Seq<char> {
    if entry.1 > 0 {
        "  📍 "@ + entry.0 + ": "@ + priced(entry.1, unit) + "\n"@
    } else {
        ""@
    }
}

/// The report on all balances.
pub open spec fn balance_text(list: Seq<(Seq<char>, u64)>, unit: Seq<char>) -> Seq<char> {
    "💰 Wallet Balances:\n"@ + concat_rows(list.len(), |i: int| balance_row(list[i], unit)) + (
    if total(list) == 0 {
        "  No funds in any mint\n"@
    } else {
        "💰 Total Balance: "@ + priced(total(list) as u64, unit) + "\n"@
    })
}

pub(crate) proof fn lemma_best(list: Seq<(Seq<char>, u64)>, i: int)
    requires
        is_best(list, i),
    ensures
        best_mint(list) == Some(list[i].0),
{
    let k = choose|k: int| is_best(list, k);
    assert(is_best(list, k));
    if k < i {
        assert(list[k].1 < list[i].1);
    }
    if i < k {
        assert(list[i].1 < list[k].1);
    }
}

pub(crate) proof fn lemma_first_with(list: Seq<(Seq<char>, u64)>, amount: u64, i: int)
    requires
        is_first_with(list, amount, i),
    ensures
        first_mint_with(list, amount) == Some(list[i].0),
{
    let k = choose|k: int| is_first_with(list, amount, k);
    assert(is_first_with(list, amount, k));
    if k < i {
        assert(list[k].1 < amount);
    }
    if i < k {
        assert(list[i].1 < amount);
    }
}

pub(crate) proof fn lemma_entry(list: Seq<(Seq<char>, u64)>, mint_url: Seq<char>, i: int)
    requires
        is_entry(list, mint_url, i),
    ensures
        balance_at(list, mint_url) == Some(list[i].1),
{
    let k = choose|k: int| is_entry(list, mint_url, k);
    assert(is_entry(list, mint_url, k));
    if k < i {
        assert(list[k].0 != mint_url);
    }
    if i < k {
        assert(list[i].0 != mint_url);
    }
}

/// The mint with the highest balance is one that has funds, and none has more.
pub proof fn best_mint_has_the_most(list: Seq<(Seq<char>, u64)>)
    ensures
        match best_mint(list) {
            Some(url) => exists|i: int| #[trigger] is_best(list, i) && list[i].0 == url,
            None => forall|i: int| 0 <= i < list.len() ==> (#[trigger] list[i]).1 == 0,
        },
{
    lemma_best_exists(list);
}

/// Unless all balances are zero there is a highest one.
proof fn lemma_best_exists(list: Seq<(Seq<char>, u64)>)
    ensures
        (exists|i: int| is_best(list, i)) || forall|i: int|
            0 <= i < list.len() ==> (#[trigger] list[i]).1 == 0,
    decreases list.len(),
{
    if list.len() > 0 {
        let head = list.drop_last();
        let n = list.len() - 1;
        lemma_best_exists(head);
        if exists|i: int| is_best(head, i) {
            let i = choose|i: int| is_best(head, i);
            assert forall|j: int| 0 <= j < n implies (#[trigger] list[j]).1 <= list[i].1 by {
                assert(head[j].1 <= head[i].1);
            }
            assert forall|j: int| 0 <= j < i implies (#[trigger] list[j]).1 < list[i].1 by {
                assert(head[j].1 < head[i].1);
            }
            if list[n].1 > list[i].1 {
                assert(is_best(list, n));
            } else {
                assert(is_best(list, i));
            }
        } else {
            assert forall|j: int| 0 <= j < n implies (#[trigger] list[j]).1 == 0 by {
                assert(head[j].1 == 0);
            }
            if list[n].1 > 0 {
                assert(is_best(list, n));
            }
        }
    }
}

/// The mint with the highest balance, if any has one.
pub fn find_best_mint(balances: &Vec<Balance>) -> (r: Option<String>)
    ensures
        match best_mint(balance_view(balances@)) {
            Some(url) => r matches Some(u) && u@ == url,
            None => r is None,
        },
{
    let ghost list = balance_view(balances@);
    let mut best: Option<usize> = None;
    let mut i: usize = 0;
    while i < balances.len()
        invariant
            i <= balances@.len(),
            list == balance_view(balances@),
            match best {
                Some(b) => is_best(list.take(i as int), b as int),
                None => forall|j: int| 0 <= j < i ==> (#[trigger] list[j]).1 == 0,
            },
        decreases balances@.len() - i,
    {
        let amount: u64 = balances[i].amount;
        let ghost before = list.take(i as int);
        let ghost after = list.take(i + 1);
        assert(list[i as int].1 == amount);
        assert(after[i as int] == list[i as int]);
        assert(forall|j: int| 0 <= j < i ==> before[j] == list[j] && after[j] == list[j]);
        match best {
            Some(b) => {
                assert(before[b as int] == list[b as int]);
                if amount > balances[b].amount {
                    best = Some(i);
                    assert forall|j: int| 0 <= j < i + 1 implies (#[trigger] after[j]).1
                        <= after[i as int].1 by {
                        if j < i {
                            assert(before[j].1 <= before[b as int].1);
                        }
                    }
                    assert forall|j: int| 0 <= j < i implies (#[trigger] after[j]).1
                        < after[i as int].1 by {
                        assert(before[j].1 <= before[b as int].1);
                    }
                } else {
                    assert forall|j: int| 0 <= j < i + 1 implies (#[trigger] after[j]).1
                        <= after[b as int].1 by {
                        if j < i {
                            assert(before[j].1 <= before[b as int].1);
                        }
                    }
                    assert forall|j: int| 0 <= j < b implies (#[trigger] after[j]).1
                        < after[b as int].1 by {
                        assert(before[j].1 < before[b as int].1);
                    }
                    assert(is_best(after, b as int));
                }
            },
            None => {
                if amount > 0 {
                    best = Some(i);
                    assert(is_best(after, i as int));
                }
            },
        }
        i = i + 1;
    }
    assert(list.take(i as int) =~= list);
    match best {
        Some(b) => {
            proof {
                lemma_best(list, b as int);
            }
            Some(balances[b].mint_url.clone())
        },
        None => None,
    }
}

/// The first mint with a balance of at least `amount`, if there is one.
pub fn find_mint_with(balances: &Vec<Balance>, amount: u64) -> (r: Option<String>)
    ensures
        match first_mint_with(balance_view(balances@), amount) {
            Some(url) => r matches Some(u) && u@ == url,
            None => r is None,
        },
{
    let ghost list = balance_view(balances@);
    let mut i: usize = 0;
    while i < balances.len()
        invariant
            i <= balances@.len(),
            list == balance_view(balances@),
            forall|j: int| 0 <= j < i ==> (#[trigger] list[j]).1 < amount,
        decreases balances@.len() - i,
    {
        assert(list[i as int].1 == balances@[i as int].amount);
        if balances[i].amount >= amount {
            proof {
                lemma_first_with(list, amount, i as int);
            }
            return Some(balances[i].mint_url.clone());
        }
        i = i + 1;
    }
    None
}

/// The balance at a mint, if it is listed.
pub fn find_balance(balances: &Vec<Balance>, mint_url: &str) -> (r: Option<u64>)
    ensures
        r == balance_at(balance_view(balances@), mint_url@),
{
    let ghost list = balance_view(balances@);
    let mut i: usize = 0;
    while i < balances.len()
        invariant
            i <= balances@.len(),
            list == balance_view(balances@),
            forall|j: int| 0 <= j < i ==> (#[trigger] list[j]).0 != mint_url@,
        decreases balances@.len() - i,
    {
        assert(list[i as int].0 == balances@[i as int].mint_url@);
        if same_text(balances[i].mint_url.as_str(), mint_url) {
            proof {
                lemma_entry(list, mint_url@, i as int);
            }
            return Some(balances[i].amount);
        }
        i = i + 1;
    }
    None
}

/// A part of the balances does not come to more than all of them.
pub(crate) proof fn lemma_total_grows(list: Seq<(Seq<char>, u64)>, n: int)
    requires
        0 <= n <= list.len(),
    ensures
        total(list.take(n)) <= total(list),
    decreases list.len(),
{
    if n < list.len() {
        lemma_total_grows(list.drop_last(), n);
        assert(list.drop_last().take(n) =~= list.take(n));
    } else {
        assert(list.take(n) =~= list);
    }
}

/// The report on all balances in one unit.
pub fn balance_report(balances: &Vec<Balance>, unit: &str) -> (r: String)
    requires
        total(balance_view(balances@)) <= u64::MAX,
    ensures
        r@ == balance_text(balance_view(balances@), unit@),
{
    let ghost list = balance_view(balances@);
    let ghost row = |i: int| balance_row(list[i], unit@);
    let mut text: String = "💰 Wallet Balances:\n".to_string();
    let ghost head = text@;
    let mut sum: u64 = 0;
    let mut i: usize = 0;
    proof {
        assert(list.take(0).len() == 0);
        assert(text@ =~= head + concat_rows(0, row));
    }
    while i < balances.len()
        invariant
            i <= balances@.len(),
            list == balance_view(balances@),
            row == (|i: int| balance_row(list[i], unit@)),
            total(list) <= u64::MAX,
            sum == total(list.take(i as int)),
            text@ == head + concat_rows(i as nat, row),
        decreases balances@.len() - i,
    {
        let ghost before = text@;
        let amount: u64 = balances[i].amount;
        proof {
            assert(list[i as int] == (balances@[i as int].mint_url@, amount));
            assert(list.take(i + 1).drop_last() =~= list.take(i as int));
            assert(list.take(i + 1).last() == list[i as int]);
            lemma_total_grows(list, i + 1);
        }
        if amount > 0 {
            text.append("  📍 ");
            text.append(balances[i].mint_url.as_str());
            text.append(": ");
            text.append(price(amount, unit).as_str());
            text.append("\n");
            sum = sum + amount;
        } else {
            proof {
                reveal_strlit("");
            }
        }
        proof {
            assert(text@ =~= before + row(i as int));
            assert(concat_rows((i + 1) as nat, row) =~= concat_rows(i as nat, row) + row(i as int));
        }
        i = i + 1;
    }
    assert(list.take(i as int) =~= list);
    if sum == 0 {
        text.append("  No funds in any mint\n");
    } else {
        let ghost before = text@;
        let mut last: String = "💰 Total Balance: ".to_string();
        last.append(price(sum, unit).as_str());
        last.append("\n");
        text.append(last.as_str());
    }
    text
}

} // verus!
