//! What holds of the commands that a line stands for.

use vstd::prelude::*;

use crate::cashu_wallet::command::{
    command_failure, command_notice, command_of, digits_value, is_digit, is_space, number,
    split_words, unsigned_digits, words, Command,
};
use crate::cashu_wallet::error::Failure;
use crate::text::{decimal_text, numbers_are_written_in_digits};

verus! {

/// The characters that separate words.
pub proof fn separators_are_white_space(c: char)
    ensures
        is_space(c) <==> (c == ' ' || '\t' <= c <= '\r' || c == '\u{85}' || c == '\u{a0}' || c
            == '\u{1680}' || '\u{2000}' <= c <= '\u{200a}' || c == '\u{2028}' || c == '\u{2029}'
            || c == '\u{202f}' || c == '\u{205f}' || c == '\u{3000}'),
{
}

proof fn lemma_split_on(before: Seq<char>, rest: Seq<char>)
    requires
        split_words(before).1.len() == 0,
    ensures
        split_words(before + rest).0 == split_words(before).0 + split_words(rest).0,
        split_words(before + rest).1 == split_words(rest).1,
    decreases rest.len(),
{
    let all = before + rest;
    if rest.len() == 0 {
        assert(all =~= before);
        assert(split_words(before).0 + split_words(rest).0 =~= split_words(before).0);
        assert(split_words(before).1 =~= split_words(rest).1);
    } else {
        lemma_split_on(before, rest.drop_last());
        assert(all.drop_last() =~= before + rest.drop_last());
        assert(all.last() == rest.last());
        let (done, open) = split_words(rest.drop_last());
        assert(split_words(before).0 + done.push(open) =~= (split_words(before).0 + done).push(
            open,
        ));
    }
}

proof fn lemma_split_word(word: Seq<char>)
    requires
        forall|i: int| 0 <= i < word.len() ==> !is_space(#[trigger] word[i]),
    ensures
        split_words(word) == (Seq::<Seq<char>>::empty(), word),
    decreases word.len(),
{
    if word.len() > 0 {
        let head = word.drop_last();
        assert forall|i: int| 0 <= i < head.len() implies !is_space(#[trigger] head[i]) by {
            assert(head[i] == word[i]);
        }
        lemma_split_word(head);
        assert(!is_space(word[word.len() - 1]));
        assert(head.push(word.last()) =~= word);
    } else {
        assert(word =~= Seq::<char>::empty());
    }
}

/// A line is taken apart from its front: separators there do not count, and what stands before the
/// first separator is the first word.
pub proof fn lines_are_taken_apart_word_by_word(
    word: Seq<char>,
    separator: char,
    rest: Seq<char>,
)
    requires
        word.len() > 0,
        forall|i: int| 0 <= i < word.len() ==> !is_space(#[trigger] word[i]),
        is_space(separator),
    ensures
        words(Seq::empty()) == Seq::<Seq<char>>::empty(),
        words(word) == seq![word],
        words(seq![separator] + rest) == words(rest),
        words(word + seq![separator] + rest) == seq![word] + words(rest),
{
    let blank = seq![separator];
    let first = word + blank;
    lemma_split_word(word);
    assert(blank.drop_last() =~= Seq::<char>::empty());
    assert(split_words(blank.drop_last()).1.len() == 0);
    assert(split_words(blank).1.len() == 0);
    assert(split_words(blank).0 =~= Seq::<Seq<char>>::empty());
    lemma_split_on(blank, rest);
    assert(words(blank + rest) =~= words(rest));
    assert(first.drop_last() =~= word);
    assert(first.last() == separator);
    assert(split_words(first).0 =~= seq![word]);
    assert(split_words(first).1.len() == 0);
    lemma_split_on(first, rest);
    assert(words(first + rest) =~= seq![word] + words(rest));
    assert(words(word) =~= seq![word]);
}

proof fn lemma_value_of_decimal(n: nat)
    ensures
        digits_value(decimal_text(n)) == n,
    decreases n,
{
    numbers_are_written_in_digits(n);
    if n >= 10 {
        lemma_value_of_decimal(n / 10);
    } else {
        assert(decimal_text(n).drop_last().len() == 0);
        assert(digits_value(decimal_text(n).drop_last()) == 0);
    }
}

/// A number is read as it is written, up to the largest that fits.
pub proof fn written_numbers_are_read_back(n: nat)
    ensures
        n <= u64::MAX ==> number(decimal_text(n)) == Some(n as u64),
        n > u64::MAX ==> number(decimal_text(n)) is None,
{
    let text = decimal_text(n);
    numbers_are_written_in_digits(n);
    lemma_value_of_decimal(n);
    assert('0' <= text[0] <= '9');
    assert(unsigned_digits(text) == text);
    assert forall|i: int| 0 <= i < text.len() implies is_digit(#[trigger] text[i]) by {}
}

/// A digit more makes ten times the number and the digit, if that fits.
pub proof fn numbers_grow_by_digits(text: Seq<char>, d: char)
    requires
        '0' <= d <= '9',
    ensures
        number(seq![d]) == Some((d as nat - '0' as nat) as u64),
        number(text) matches Some(n) ==> number(text.push(d)) == (if n * 10 + (d as nat - '0' as nat)
            <= u64::MAX {
            Some((n * 10 + (d as nat - '0' as nat)) as u64)
        } else {
            None
        }),
{
    let one = seq![d];
    assert(one.drop_last().len() == 0);
    assert(digits_value(one.drop_last()) == 0);
    assert(unsigned_digits(one) == one);
    assert(digits_value(one) == d as nat - '0' as nat);
    assert forall|i: int| 0 <= i < one.len() implies is_digit(#[trigger] one[i]) by {}
    if number(text) is Some {
        let digits = unsigned_digits(text);
        let more = unsigned_digits(text.push(d));
        assert(text.len() > 0);
        assert(text.push(d)[0] == text[0]);
        assert(more =~= digits.push(d));
        assert(more.drop_last() =~= digits);
        assert(more.last() == d);
        assert forall|i: int| 0 <= i < more.len() implies is_digit(#[trigger] more[i]) by {
            if i < digits.len() {
                assert(more[i] == digits[i]);
            }
        }
    }
}

/// What is no number, but for a sign or nothing at all, does not become one by another digit.
pub proof fn digits_do_not_mend_numbers(text: Seq<char>, d: char)
    requires
        '0' <= d <= '9',
        number(text) is None,
        text.len() > 0,
        text != seq!['+'],
    ensures
        number(text.push(d)) is None,
{
    let digits = unsigned_digits(text);
    let more = unsigned_digits(text.push(d));
    assert(text.push(d)[0] == text[0]);
    assert(more =~= digits.push(d));
    assert(more.drop_last() =~= digits);
    assert(more.last() == d);
    if digits.len() == 0 {
        assert(text =~= seq!['+']);
    }
    if exists|i: int| 0 <= i < digits.len() && !is_digit(#[trigger] digits[i]) {
        let i = choose|i: int| 0 <= i < digits.len() && !is_digit(#[trigger] digits[i]);
        assert(more[i] == digits[i]);
    }
}

/// A plus sign in front of a digit does not count, and no sign or digit alone makes a number of
/// anything else: where another character stands, there is no number.
pub proof fn only_digits_make_numbers(text: Seq<char>, i: int)
    ensures
        number(Seq::empty()) is None,
        number(seq!['+']) is None,
        text.len() > 0 && text[0] != '+' ==> number(seq!['+'] + text) == number(text),
        0 <= i < text.len() && !('0' <= text[i] <= '9') && !(i == 0 && text[i] == '+')
            ==> number(text) is None,
{
    let signed = seq!['+'] + text;
    assert(signed.skip(1) =~= text);
    assert(seq!['+'].skip(1).len() == 0);
    if 0 <= i < text.len() && !('0' <= text[i] <= '9') && !(i == 0 && text[i] == '+') {
        let digits = unsigned_digits(text);
        if text[0] == '+' {
            assert(digits[i - 1] == text[i]);
            assert(!is_digit(digits[i - 1]));
        } else {
            assert(!is_digit(digits[i]));
        }
    }
}

proof fn lemma_names_differ()
    ensures
        "help"@ != "balance"@,
        "help"@ != "mint_info"@,
        "help"@ != "mint"@,
        "help"@ != "send_to_chat"@,
        "help"@ != "delete_mint"@,
        "balance"@ != "mint_info"@,
        "balance"@ != "mint"@,
        "balance"@ != "send_to_chat"@,
        "balance"@ != "delete_mint"@,
        "mint_info"@ != "mint"@,
        "mint_info"@ != "send_to_chat"@,
        "mint_info"@ != "delete_mint"@,
        "mint"@ != "send_to_chat"@,
        "mint"@ != "delete_mint"@,
        "send_to_chat"@ != "delete_mint"@,
{
    reveal_strlit("help");
    reveal_strlit("balance");
    reveal_strlit("mint_info");
    reveal_strlit("mint");
    reveal_strlit("send_to_chat");
    reveal_strlit("delete_mint");
    assert("help"@.len() == 4 && "balance"@.len() == 7 && "mint_info"@.len() == 9);
    assert("mint"@.len() == 4 && "send_to_chat"@.len() == 12 && "delete_mint"@.len() == 11);
    assert("help"@[0] != "mint"@[0]);
}

/// A line that begins with `mint` and a number asks for that many, at the mint that the third word
/// names, if there is one, and in the unit that is the fourth word; in `sat` only where there is no
/// fourth word. Without a number it asks for nothing.
pub proof fn mint_lines_say_what_to_mint(line: Seq<char>)
    requires
        words(line).len() > 0,
        words(line)[0] == "mint"@,
    ensures
        words(line).len() == 1 ==> command_of(words(line)) == (Command::Incomplete {
            usage: "Usage: /wallet mint <amount> [mint_url] [unit]"@,
        }),
        words(line).len() >= 2 && number(words(line)[1]) is None ==> command_of(words(line))
            == Command::InvalidAmount,
        words(line).len() >= 2 ==> (number(words(line)[1]) matches Some(n) ==> command_of(
            words(line),
        ) is Mint && command_of(words(line))->Mint_amount == n),
        words(line).len() == 2 && number(words(line)[1]) is Some ==> command_of(
            words(line),
        )->Mint_mint_url is None,
        words(line).len() >= 3 && number(words(line)[1]) is Some ==> command_of(
            words(line),
        )->Mint_mint_url == Some(words(line)[2]),
        words(line).len() < 4 && words(line).len() >= 2 && number(words(line)[1]) is Some
            ==> command_of(words(line))->Mint_unit == "sat"@,
        words(line).len() >= 4 && number(words(line)[1]) is Some ==> command_of(
            words(line),
        )->Mint_unit == words(line)[3],
{
    lemma_names_differ();
}

/// A line that begins with `send_to_chat` and a number asks to send that many, from the mint that
/// the third word names, if there is one, and in the unit that is the fourth word; in `sat` only
/// where there is no fourth word. Without a number it asks for nothing.
pub proof fn send_lines_say_what_to_send(line: Seq<char>)
    requires
        words(line).len() > 0,
        words(line)[0] == "send_to_chat"@,
    ensures
        words(line).len() == 1 ==> command_of(words(line)) == (Command::Incomplete {
            usage: "Usage: /wallet send_to_chat <amount> [mint_url] [unit]"@,
        }),
        words(line).len() >= 2 && number(words(line)[1]) is None ==> command_of(words(line))
            == Command::InvalidAmount,
        words(line).len() >= 2 ==> (number(words(line)[1]) matches Some(n) ==> command_of(
            words(line),
        ) is SendToChat && command_of(words(line))->SendToChat_amount == n),
        words(line).len() == 2 && number(words(line)[1]) is Some ==> command_of(
            words(line),
        )->SendToChat_mint_url is None,
        words(line).len() >= 3 && number(words(line)[1]) is Some ==> command_of(
            words(line),
        )->SendToChat_mint_url == Some(words(line)[2]),
        words(line).len() < 4 && words(line).len() >= 2 && number(words(line)[1]) is Some
            ==> command_of(words(line))->SendToChat_unit == "sat"@,
        words(line).len() >= 4 && number(words(line)[1]) is Some ==> command_of(
            words(line),
        )->SendToChat_unit == words(line)[3],
{
    lemma_names_differ();
}

/// What `mint` and `send_to_chat` read from the words that follow is the same.
pub proof fn mint_and_send_read_alike(w: Seq<Seq<char>>)
    ensures
        match command_of(seq!["mint"@] + w) {
            Command::Mint { amount, mint_url, unit } => command_of(seq!["send_to_chat"@] + w)
                == (Command::SendToChat { amount, mint_url, unit }),
            Command::InvalidAmount => command_of(seq!["send_to_chat"@] + w)
                == Command::InvalidAmount,
            Command::Incomplete { .. } => command_of(seq!["send_to_chat"@] + w) is Incomplete,
            _ => false,
        },
{
    lemma_names_differ();
    let a = seq!["mint"@] + w;
    let b = seq!["send_to_chat"@] + w;
    assert(forall|i: int| 1 <= i < a.len() ==> a[i] == b[i]);
}

/// The commands that take no amount: help where the line is empty or asks for it, the balances, what
/// a mint says of itself, and the deletion of a mint. Everything else is unknown, by its first word.
pub proof fn other_lines_say_what_to_do(line: Seq<char>)
    ensures
        words(line).len() == 0 ==> command_of(words(line)) == Command::Help,
        words(line).len() > 0 ==> match command_of(words(line)) {
            Command::Help => words(line)[0] == "help"@,
            Command::Balance => words(line)[0] == "balance"@,
            Command::MintInfo { mint_url } => words(line)[0] == "mint_info"@ && (if words(line).len()
                > 1 {
                mint_url == Some(words(line)[1])
            } else {
                mint_url is None
            }),
            Command::DeleteMint { mint } => words(line)[0] == "delete_mint"@ && words(line).len()
                >= 2 && mint == words(line)[1],
            Command::Unknown { name } => name == words(line)[0] && name != "help"@ && name
                != "balance"@ && name != "mint_info"@ && name != "mint"@ && name
                != "send_to_chat"@ && name != "delete_mint"@,
            Command::Mint { .. } => words(line)[0] == "mint"@,
            Command::SendToChat { .. } => words(line)[0] == "send_to_chat"@,
            Command::InvalidAmount => words(line)[0] == "mint"@ || words(line)[0]
                == "send_to_chat"@,
            Command::Incomplete { usage } => words(line).len() == 1 && (words(line)[0]
                == "delete_mint"@ && usage == "Usage: /wallet delete_mint <mint_url>"@
                || words(line)[0] == "mint"@ || words(line)[0] == "send_to_chat"@),
        },
{
    lemma_names_differ();
}

/// The words that every command is known by.
pub proof fn commands_are_known_by_their_first_word(line: Seq<char>)
    requires
        words(line).len() > 0,
    ensures
        words(line)[0] == "help"@ ==> command_of(words(line)) == Command::Help,
        words(line)[0] == "balance"@ ==> command_of(words(line)) == Command::Balance,
        words(line)[0] == "mint_info"@ ==> command_of(words(line)) is MintInfo,
        words(line)[0] == "delete_mint"@ ==> command_of(words(line)) is DeleteMint || command_of(
            words(line),
        ) is Incomplete,
        words(line)[0] == "delete_mint"@ && words(line).len() >= 2 ==> command_of(
            words(line),
        ) is DeleteMint,
{
    lemma_names_differ();
}

/// What is said of a command that is not carried out: how to use it, or that it is unknown, each on a
/// line of its own. Only an amount that is none makes a command fail.
pub proof fn refused_commands_are_explained(usage: Seq<char>, name: Seq<char>, c: Command)
    ensures
        command_notice(Command::Incomplete { usage }) == Some(usage + "\n"@),
        command_notice(Command::Unknown { name }) == Some("Unknown command: "@ + name + "\n"@),
        !(c is Incomplete) && !(c is Unknown) ==> command_notice(c) is None,
        command_failure(Command::InvalidAmount) == Some(Failure::InvalidAmount),
        !(c is InvalidAmount) ==> command_failure(c) is None,
{
}

} // verus!
