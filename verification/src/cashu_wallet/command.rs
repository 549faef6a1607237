//! The commands that the wallet understands.

use vstd::prelude::*;

use crate::cashu_wallet::error::{Failure, WalletError};
use crate::text::{join3, same_text, text_or, text_view, texts};

verus! {

/// A command of the user.
#[derive(Debug)]
pub enum WalletCommand {
    Help,
    Balance,
    MintInfo { mint_url: Option<String> },
    Mint { amount: u64, mint_url: Option<String>, unit: String },
    SendToChat { amount: u64, mint_url: Option<String>, unit: String },
    DeleteMint { mint: String },
    /// An argument is missing.
    Incomplete { usage: String },
    /// The amount is not a number.
    InvalidAmount,
    Unknown { name: String },
}

/// A command, as a mathematical value.
pub enum Command {
    Help,
    Balance,
    MintInfo { mint_url: Option<Seq<char>> },
    Mint { amount: u64, mint_url: Option<Seq<char>>, unit: Seq<char> },
    SendToChat { amount: u64, mint_url: Option<Seq<char>>, unit: Seq<char> },
    DeleteMint { mint: Seq<char> },
    Incomplete { usage: Seq<char> },
    InvalidAmount,
    Unknown { name: Seq<char> },
}

impl View for WalletCommand {
    type V = Command;

    open spec fn view(&self) -> Command {
        match self {
            WalletCommand::Help => Command::Help,
            WalletCommand::Balance => Command::Balance,
            WalletCommand::MintInfo { mint_url } => Command::MintInfo {
                mint_url: text_view(*mint_url),
            },
            WalletCommand::Mint { amount, mint_url, unit } => Command::Mint {
                amount: *amount,
                mint_url: text_view(*mint_url),
                unit: unit@,
            },
            WalletCommand::SendToChat { amount, mint_url, unit } => Command::SendToChat {
                amount: *amount,
                mint_url: text_view(*mint_url),
                unit: unit@,
            },
            WalletCommand::DeleteMint { mint } => Command::DeleteMint { mint: mint@ },
            WalletCommand::Incomplete { usage } => Command::Incomplete { usage: usage@ },
            WalletCommand::InvalidAmount => Command::InvalidAmount,
            WalletCommand::Unknown { name } => Command::Unknown { name: name@ },
        }
    }
}

/// Whether a character separates words: those that Unicode calls white space.
pub open spec fn is_space(c: char) -> bool {
    let n = c as u32;
    9 <= n <= 13 || n == 32 || n == 0x85 || n == 0xA0 || n == 0x1680 || 0x2000 <= n <= 0x200A || n
        == 0x2028 || n == 0x2029 || n == 0x202F || n == 0x205F || n == 0x3000
}

/// Whether a character separates words.
pub fn separates(c: char) -> (r: bool)
    ensures
        r == is_space(c),
{
    let n: u32 = c as u32;
    (9 <= n && n <= 13) || n == 32 || n == 0x85 || n == 0xA0 || n == 0x1680 || (0x2000 <= n && n
        <= 0x200A) || n == 0x2028 || n == 0x2029 || n == 0x202F || n == 0x205F || n == 0x3000
}

/// The words of a text that are complete, and the one that its end leaves open.
pub open spec fn split_words(text: Seq<char>) -> (Seq<Seq<char>>, Seq<char>)
    decreases text.len(),
{
    if text.len() == 0 {
        (Seq::empty(), Seq::empty())
    } else {
        let (done, open) = split_words(text.drop_last());
        if !is_space(text.last()) {
            (done, open.push(text.last()))
        } else if open.len() == 0 {
            (done, open)
        } else {
            (done.push(open), Seq::empty())
        }
    }
}

/// The words of a text.
pub open spec fn words(text: Seq<char>) -> Seq<Seq<char>> {
    let (done, open) = split_words(text);
    if open.len() == 0 {
        done
    } else {
        done.push(open)
    }
}

proof fn lemma_words(text: Seq<char>)
    ensures
        forall|i: int| 0 <= i < words(text).len() ==> #[trigger] words(text)[i].len() > 0,
        forall|i: int, j: int|
            0 <= i < words(text).len() && 0 <= j < words(text)[i].len() ==> !is_space(
                #[trigger] words(text)[i][j],
            ),
        forall|j: int| 0 <= j < split_words(text).1.len() ==> !is_space(split_words(text).1[j]),
    decreases text.len(),
{
    if text.len() > 0 {
        lemma_words(text.drop_last());
        let before = words(text.drop_last());
        let (done, open) = split_words(text.drop_last());
        assert forall|i: int| 0 <= i < words(text).len() implies #[trigger] words(text)[i].len()
            > 0 && forall|j: int|
            0 <= j < words(text)[i].len() ==> !is_space(#[trigger] words(text)[i][j]) by {
            if i < done.len() {
                assert(words(text)[i] == before[i]);
            } else if is_space(text.last()) {
                assert(words(text)[i] == before[i]);
            }
        }
    }
}

/// Every word is one: it has characters, and none of them separates words.
pub proof fn words_are_words(text: Seq<char>, i: int)
    requires
        0 <= i < words(text).len(),
    ensures
        words(text)[i].len() > 0,
        forall|j: int| 0 <= j < words(text)[i].len() ==> !is_space(#[trigger] words(text)[i][j]),
{
    lemma_words(text);
}

/// The words of a text.
pub fn to_words(text: &str) -> (r: Vec<String>)
    ensures
        texts(r@) == words(text@),
{
    let n: usize = text.unicode_len();
    let mut list: Vec<String> = Vec::new();
    let mut start: usize = 0;
    let mut i: usize = 0;
    proof {
        assert(text@.take(0).len() == 0);
        assert(texts(list@) =~= Seq::<Seq<char>>::empty());
        assert(text@.subrange(0, 0) =~= Seq::<char>::empty());
    }
    while i < n
        invariant
            n == text@.len(),
            start <= i <= n,
            split_words(text@.take(i as int)) == (
                texts(list@),
                text@.subrange(start as int, i as int),
            ),
        decreases n - i,
    {
        let c: char = text.get_char(i);
        let ghost before = list@;
        proof {
            assert(text@.take(i + 1).drop_last() =~= text@.take(i as int));
            assert(text@.take(i + 1).last() == c);
        }
        if separates(c) {
            if start < i {
                let word: String = text.substring_char(start, i).to_string();
                list.push(word);
                assert(texts(list@) =~= texts(before).push(word@));
            }
            start = i + 1;
            assert(text@.subrange(start as int, i + 1) =~= Seq::<char>::empty());
        } else {
            assert(text@.subrange(start as int, i + 1) =~= text@.subrange(
                start as int,
                i as int,
            ).push(c));
        }
        i = i + 1;
    }
    assert(text@.take(i as int) =~= text@);
    if start < n {
        let ghost before = list@;
        let word: String = text.substring_char(start, n).to_string();
        list.push(word);
        assert(texts(list@) =~= texts(before).push(word@));
    }
    list
}

/// Whether a character is a decimal digit.
pub open spec fn is_digit(c: char) -> bool {
    '0' <= c <= '9'
}

/// The number that decimal digits stand for.
pub open spec fn digits_value(digits: Seq<char>) -> nat
    decreases digits.len(),
{
    if digits.len() == 0 {
        0
    } else {
        (digits_value(digits.drop_last()) * 10 + (digits.last() as nat - '0' as nat)) as nat
    }
}

/// The digits of a number: a plus sign in front does not count.
pub open spec fn unsigned_digits(text: Seq<char>) -> Seq<char> {
    if text.len() > 0 && text[0] == '+' {
        text.skip(1)
    } else {
        text
    }
}

/// The number that a text stands for: one digit or more, and a value of at most 64 bits.
pub open spec fn number(text: Seq<char>) -> Option<u64> {
    let digits = unsigned_digits(text);
    if digits.len() == 0 || exists|i: int| 0 <= i < digits.len() && !is_digit(#[trigger] digits[i])
        || digits_value(digits) > u64::MAX {
        None
    } else {
        Some(digits_value(digits) as u64)
    }
}

/// More digits do not make a number smaller.
proof fn lemma_digits_grow(digits: Seq<char>, n: int)
    requires
        0 <= n <= digits.len(),
        forall|i: int| 0 <= i < digits.len() ==> is_digit(#[trigger] digits[i]),
    ensures
        digits_value(digits.take(n)) <= digits_value(digits),
    decreases digits.len(),
{
    if n < digits.len() {
        lemma_digits_grow(digits.drop_last(), n);
        assert(digits.drop_last().take(n) =~= digits.take(n));
    } else {
        assert(digits.take(n) =~= digits);
    }
}

/// The number that a text stands for.
pub fn parse_number(text: &str) -> (r: Option<u64>)
    ensures
        r == number(text@),
{
    let n: usize = text.unicode_len();
    let start: usize = if n > 0 && text.get_char(0) == '+' {
        1
    } else {
        0
    };
    let ghost digits = unsigned_digits(text@);
    if start == n {
        return None;
    }
    let mut value: u64 = 0;
    let mut i: usize = start;
    assert(digits.take(0).len() == 0);
    while i < n
        invariant
            n == text@.len(),
            start <= i <= n,
            start < n,
            digits == text@.skip(start as int),
            digits == unsigned_digits(text@),
            value == digits_value(digits.take(i - start)),
            forall|j: int| 0 <= j < i - start ==> is_digit(#[trigger] digits[j]),
        decreases n - i,
    {
        let c: char = text.get_char(i);
        let ghost k = i - start;
        assert(digits[k] == c);
        if c < '0' || c > '9' {
            assert(!is_digit(digits[k]));
            return None;
        }
        let digit: u64 = c as u64 - 48;
        let wide: u128 = value as u128 * 10 + digit as u128;
        proof {
            assert(digits.take(k + 1).drop_last() =~= digits.take(k));
            assert(digits.take(k + 1).last() == c);
            assert(wide == digits_value(digits.take(k + 1)));
        }
        if wide > u64::MAX as u128 {
            proof {
                if forall|j: int| 0 <= j < digits.len() ==> is_digit(#[trigger] digits[j]) {
                    lemma_digits_grow(digits, k + 1);
                }
            }
            return None;
        }
        value = wide as u64;
        i = i + 1;
    }
    assert(digits.take(n - start) =~= digits);
    Some(value)
}

/// The word number `i`, counted from zero, if there is one.
pub open spec fn argument(w: Seq<Seq<char>>, i: int) -> Option<Seq<char>> {
    if 0 <= i < w.len() {
        Some(w[i])
    } else {
        None
    }
}

/// The command that a list of words stands for.
pub open spec fn command_of(w: Seq<Seq<char>>) -> Command {
    if w.len() == 0 || w[0] == "help"@ {
        Command::Help
    } else if w[0] == "balance"@ {
        Command::Balance
    } else if w[0] == "mint_info"@ {
        Command::MintInfo { mint_url: argument(w, 1) }
    } else if w[0] == "mint"@ {
        if w.len() < 2 {
            Command::Incomplete { usage: "Usage: /wallet mint <amount> [mint_url] [unit]"@ }
        } else {
            match number(w[1]) {
                Some(amount) => Command::Mint {
                    amount,
                    mint_url: argument(w, 2),
                    unit: text_or(argument(w, 3), "sat"@),
                },
                None => Command::InvalidAmount,
            }
        }
    } else if w[0] == "send_to_chat"@ {
        if w.len() < 2 {
            Command::Incomplete {
                usage: "Usage: /wallet send_to_chat <amount> [mint_url] [unit]"@,
            }
        } else {
            match number(w[1]) {
                Some(amount) => Command::SendToChat {
                    amount,
                    mint_url: argument(w, 2),
                    unit: text_or(argument(w, 3), "sat"@),
                },
                None => Command::InvalidAmount,
            }
        }
    } else if w[0] == "delete_mint"@ {
        if w.len() < 2 {
            Command::Incomplete { usage: "Usage: /wallet delete_mint <mint_url>"@ }
        } else {
            Command::DeleteMint { mint: w[1] }
        }
    } else {
        Command::Unknown { name: w[0] }
    }
}

/// The word number `i`, counted from zero, if there is one.
fn word_at(w: &Vec<String>, i: usize) -> (r: Option<String>)
    ensures
        text_view(r) == argument(texts(w@), i as int),
{
    if i < w.len() {
        Some(w[i].clone())
    } else {
        None
    }
}

/// The unit that a command names, or the default one.
fn unit_at(w: &Vec<String>, i: usize) -> (r: String)
    ensures
        r@ == text_or(argument(texts(w@), i as int), "sat"@),
{
    match word_at(w, i) {
        Some(unit) => unit,
        None => "sat".to_string(),
    }
}

/// The command that a line stands for.
pub fn parse_command(command: &str) -> (r: WalletCommand)
    ensures
        r@ == command_of(words(command@)),
{
    let w: Vec<String> = to_words(command);
    let ghost list = words(command@);
    if w.len() == 0 {
        return WalletCommand::Help;
    }
    assert(list[0] == w@[0]@);
    let name: &str = w[0].as_str();
    if same_text(name, "help") {
        WalletCommand::Help
    } else if same_text(name, "balance") {
        WalletCommand::Balance
    } else if same_text(name, "mint_info") {
        WalletCommand::MintInfo { mint_url: word_at(&w, 1) }
    } else if same_text(name, "mint") {
        if w.len() < 2 {
            return WalletCommand::Incomplete {
                usage: "Usage: /wallet mint <amount> [mint_url] [unit]".to_string(),
            };
        }
        assert(list[1] == w@[1]@);
        match parse_number(w[1].as_str()) {
            Some(amount) => WalletCommand::Mint {
                amount,
                mint_url: word_at(&w, 2),
                unit: unit_at(&w, 3),
            },
            None => WalletCommand::InvalidAmount,
        }
    } else if same_text(name, "send_to_chat") {
        if w.len() < 2 {
            return WalletCommand::Incomplete {
                usage: "Usage: /wallet send_to_chat <amount> [mint_url] [unit]".to_string(),
            };
        }
        assert(list[1] == w@[1]@);
        match parse_number(w[1].as_str()) {
            Some(amount) => WalletCommand::SendToChat {
                amount,
                mint_url: word_at(&w, 2),
                unit: unit_at(&w, 3),
            },
            None => WalletCommand::InvalidAmount,
        }
    } else if same_text(name, "delete_mint") {
        if w.len() < 2 {
            return WalletCommand::Incomplete {
                usage: "Usage: /wallet delete_mint <mint_url>".to_string(),
            };
        }
        assert(list[1] == w@[1]@);
        WalletCommand::DeleteMint { mint: w[1].clone() }
    } else {
        WalletCommand::Unknown { name: w[0].clone() }
    }
}

/// What is said of a command that cannot be carried out as it stands.
pub open spec fn command_notice(c: Command) -> Option<Seq<char>> {
    match c {
        Command::Incomplete { usage } => Some(usage + "\n"@),
        Command::Unknown { name } => Some("Unknown command: "@ + name + "\n"@),
        _ => None,
    }
}

/// Why a command fails before anything is done for it.
pub open spec fn command_failure(c: Command) -> Option<Failure> {
    match c {
        Command::InvalidAmount => Some(Failure::InvalidAmount),
        _ => None,
    }
}

impl WalletCommand {
    /// Why the command fails before anything is done for it.
    pub fn failure(&self) -> (r: Option<WalletError>)
        ensures
            match command_failure(self@) {
                Some(failure) => r matches Some(e) && e@ == failure,
                None => r is None,
            },
    {
        match self {
            WalletCommand::InvalidAmount => Some(WalletError::InvalidAmount),
            _ => None,
        }
    }

    /// What is said of a command that cannot be carried out as it stands.
    pub fn notice(&self) -> (r: Option<String>)
        ensures
            text_view(r) == command_notice(self@),
    {
        match self {
            WalletCommand::Incomplete { usage } => {
                let mut text: String = usage.clone();
                text.append("\n");
                Some(text)
            },
            WalletCommand::Unknown { name } => Some(
                join3("Unknown command: ", name.as_str(), "\n"),
            ),
            _ => None,
        }
    }
}

} // verus!
