use bitchat::cashu_wallet::balance::{
    balance_report, find_balance, find_best_mint, find_mint_with, Balance,
};
use bitchat::cashu_wallet::command::{parse_command, parse_number, separates, to_words, WalletCommand};
use bitchat::cashu_wallet::delete::{
    deletable_units, deletion_report, plan_deletion, Deletion, Holding,
};
use bitchat::cashu_wallet::error::WalletError;
use bitchat::cashu_wallet::info::{choose_mint, info_heading, mint_to_ask, InfoAction};
use bitchat::cashu_wallet::mint::{total_amount, MintAction, MintEvent, MintTask};
use bitchat::cashu_wallet::mint_url::{parse_mint_url, unit_name};
use bitchat::cashu_wallet::search::{SearchAction, SearchEvent, WalletSearch};
use bitchat::cashu_wallet::seed::{phrase_for, read_seed, unlock, unlock_with};
use bitchat::cashu_wallet::send::{
    after_token, chat_message, chat_report, token_failure, ChatStep, SendAction, SendEvent,
    SendTask,
};
use bitchat::cashu_wallet::setup::{wallets_to_build, KnownMint};
use bitchat::terminal_ux::{format_message_display, TimeOfDay};

fn balances(list: &[(&str, u64)]) -> Vec<Balance> {
    list.iter()
        .map(|(mint, amount)| Balance { mint_url: mint.to_string(), amount: *amount })
        .collect()
}

#[test]
fn white_space_is_what_unicode_says() {
    for c in '\0'..=char::MAX {
        assert_eq!(separates(c), c.is_whitespace(), "{:?}", c);
    }
}

#[test]
fn lines_are_split_into_words() {
    for line in ["", "  ", "a", " a\tb\u{3000}c ", "mint 5", "\n\nx  yy zzz"] {
        assert_eq!(to_words(line), line.split_whitespace().collect::<Vec<_>>());
    }
}

#[test]
fn numbers_are_read_as_std_reads_them() {
    for text in [
        "0", "7", "007", "+5", "+", "", "-1", "1a", "a", "١", "18446744073709551615",
        "18446744073709551616", "99999999999999999999999", "1 ", "++1", "184467440737095516150",
    ] {
        assert_eq!(parse_number(text), text.parse::<u64>().ok(), "{:?}", text);
    }
}

#[test]
fn commands_are_recognised() {
    assert!(matches!(parse_command("   "), WalletCommand::Help));
    assert!(matches!(parse_command("help me"), WalletCommand::Help));
    assert!(matches!(parse_command(" balance "), WalletCommand::Balance));
    assert!(matches!(
        parse_command("mint_info"),
        WalletCommand::MintInfo { mint_url: None }
    ));
    assert!(matches!(
        parse_command("mint_info https://m"),
        WalletCommand::MintInfo { mint_url: Some(url) } if url == "https://m"
    ));
    assert!(matches!(
        parse_command("mint 5"),
        WalletCommand::Mint { amount: 5, mint_url: None, unit } if unit == "sat"
    ));
    assert!(matches!(
        parse_command("mint 5 https://m usd extra"),
        WalletCommand::Mint { amount: 5, mint_url: Some(url), unit }
            if url == "https://m" && unit == "usd"
    ));
    assert!(matches!(
        parse_command("send_to_chat 1000 https://m"),
        WalletCommand::SendToChat { amount: 1000, mint_url: Some(url), unit }
            if url == "https://m" && unit == "sat"
    ));
    assert!(matches!(
        parse_command("delete_mint https://m"),
        WalletCommand::DeleteMint { mint } if mint == "https://m"
    ));
    assert!(matches!(
        parse_command("pay 5"),
        WalletCommand::Unknown { name } if name == "pay"
    ));
}

#[test]
fn incomplete_commands_are_answered_with_their_usage() {
    for (line, expected) in [
        ("mint", "Usage: /wallet mint <amount> [mint_url] [unit]"),
        ("send_to_chat", "Usage: /wallet send_to_chat <amount> [mint_url] [unit]"),
        ("delete_mint ", "Usage: /wallet delete_mint <mint_url>"),
    ] {
        assert!(matches!(
            parse_command(line),
            WalletCommand::Incomplete { usage } if usage == expected
        ));
    }
    assert_eq!(
        parse_command("delete_mint").notice(),
        Some("Usage: /wallet delete_mint <mint_url>\n".to_string())
    );
    assert_eq!(parse_command("pay 5").notice(), Some("Unknown command: pay\n".to_string()));
    assert_eq!(parse_command("balance").notice(), None);
    assert!(matches!(parse_command("mint five"), WalletCommand::InvalidAmount));
    assert!(matches!(parse_command("send_to_chat -1"), WalletCommand::InvalidAmount));
}

#[test]
fn the_best_mint_is_the_first_with_the_highest_balance() {
    assert_eq!(find_best_mint(&balances(&[])), None);
    assert_eq!(find_best_mint(&balances(&[("a", 0), ("b", 0)])), None);
    assert_eq!(
        find_best_mint(&balances(&[("a", 0), ("b", 2), ("c", 5), ("d", 5), ("e", 1)])),
        Some("c".to_string())
    );
    assert_eq!(find_best_mint(&balances(&[("a", 9), ("b", 2)])), Some("a".to_string()));
}

#[test]
fn the_first_mint_that_can_pay_is_chosen() {
    let list = balances(&[("a", 1), ("b", 5), ("c", 9)]);
    assert_eq!(find_mint_with(&list, 4), Some("b".to_string()));
    assert_eq!(find_mint_with(&list, 5), Some("b".to_string()));
    assert_eq!(find_mint_with(&list, 0), Some("a".to_string()));
    assert_eq!(find_mint_with(&list, 10), None);
    assert_eq!(find_balance(&list, "c"), Some(9));
    assert_eq!(find_balance(&list, "d"), None);
}

#[test]
fn the_balance_report_lists_mints_with_funds() {
    assert_eq!(
        balance_report(&balances(&[("https://a", 3), ("https://b", 0), ("https://c", 4)]), "sat"),
        "💰 Wallet Balances:\n  📍 https://a: 3 sat\n  📍 https://c: 4 sat\n\
         💰 Total Balance: 7 sat\n"
    );
    assert_eq!(
        balance_report(&balances(&[("https://a", 0)]), "sat"),
        "💰 Wallet Balances:\n  No funds in any mint\n"
    );
}

#[test]
fn addresses_and_units_are_brought_into_normal_form() {
    assert_eq!(parse_mint_url("HTTPS://Mint.Example.com/Path//").unwrap(), "https://mint.example.com/Path");
    for bad in ["", "mint.example.com", "/"] {
        let error = parse_mint_url(bad).unwrap_err();
        assert!(matches!(error, WalletError::InvalidMintUrl));
        assert_eq!(error.message(), "Invalid URL");
    }
    assert_eq!(unit_name("SAT"), "sat");
    assert_eq!(unit_name("Msat"), "msat");
    assert_eq!(unit_name("XyZ"), "xyz");
}

#[test]
fn a_payment_from_a_chosen_mint() {
    let (task, action) = SendTask::new(5, None, "SAT");
    assert!(matches!(action, SendAction::FetchBalances));
    let (task, action) = task.next(SendEvent::Balances(balances(&[("a", 1), ("b", 5)])));
    assert!(matches!(action, SendAction::OpenWallet(mint) if mint == "b"));
    let (task, action) = task.next(SendEvent::Opened("b".to_string()));
    assert!(matches!(action, SendAction::FetchBalances));
    let (task, action) = task.next(SendEvent::Balances(balances(&[("a", 1), ("b", 5)])));
    assert!(matches!(action, SendAction::CreateToken(5)));
    let (task, action) = task.next(SendEvent::Created);
    assert!(matches!(
        action,
        SendAction::Report(text)
            if text == "📤 Token created successfully!\nAmount: 5 sat\nMint: b\n"
    ));
    let (_, action) = task.next(SendEvent::Created);
    assert!(matches!(action, SendAction::Wait));
}

#[test]
fn a_payment_from_a_named_mint() {
    let (task, action) = SendTask::new(5, Some("HTTPS://A/"), "usd");
    assert!(matches!(action, SendAction::OpenWallet(mint) if mint == "https://a"));
    let (task, action) = task.next(SendEvent::Opened("https://a".to_string()));
    assert!(matches!(action, SendAction::FetchBalances));
    let (_, action) = task.next(SendEvent::Balances(balances(&[("https://a", 4)])));
    match action {
        SendAction::Fail(error) => assert_eq!(
            error.message(),
            "Insufficient balance. Available: 4 usd, Requested: 5 usd"
        ),
        other => panic!("{:?}", other),
    }
}

#[test]
fn a_mint_that_is_not_listed_holds_nothing() {
    let (task, _) = SendTask::begin(5, "sat".to_string(), Some(Some("m".to_string())));
    let (task, _) = task.next(SendEvent::Opened("m".to_string()));
    let (_, action) = task.next(SendEvent::Balances(balances(&[("other", 9)])));
    match action {
        SendAction::Fail(error) => assert_eq!(
            error.message(),
            "Insufficient balance. Available: 0 sat, Requested: 5 sat"
        ),
        other => panic!("{:?}", other),
    }
}

#[test]
fn payments_fail_without_a_mint() {
    let (_, action) = SendTask::new(5, Some("nowhere"), "sat");
    assert!(matches!(action, SendAction::Fail(WalletError::InvalidMintUrl)));
    let (task, _) = SendTask::new(5, None, "sat");
    let (_, action) = task.next(SendEvent::Balances(balances(&[("a", 4)])));
    match action {
        SendAction::Fail(error) => assert_eq!(
            error.message(),
            "No mint found with sufficient balance of 5 sat"
        ),
        other => panic!("{:?}", other),
    }
}

#[test]
fn what_was_not_asked_for_is_ignored() {
    let (task, _) = SendTask::new(5, None, "sat");
    let (task, action) = task.next(SendEvent::Created);
    assert!(matches!(action, SendAction::Wait));
    let (_, action) = task.next(SendEvent::Balances(balances(&[("a", 5)])));
    assert!(matches!(action, SendAction::OpenWallet(mint) if mint == "a"));
}

#[test]
fn a_search_tries_the_best_mint_and_then_every_known_one() {
    let (search, action) = WalletSearch::new();
    assert!(matches!(action, SearchAction::FetchBalances));
    let (search, action) = search.next(SearchEvent::Balances(balances(&[("a", 1), ("b", 2)])));
    assert!(matches!(action, SearchAction::LookUp(mint) if mint == "b"));
    let (search, action) = search.next(SearchEvent::Missing);
    assert!(matches!(action, SearchAction::FetchMints));
    let (search, action) =
        search.next(SearchEvent::Mints(vec!["x".to_string(), "y".to_string()]));
    assert!(matches!(action, SearchAction::LookUp(mint) if mint == "x"));
    let (search, action) = search.next(SearchEvent::Missing);
    assert!(matches!(action, SearchAction::LookUp(mint) if mint == "y"));
    let (search, action) = search.next(SearchEvent::Missing);
    assert!(matches!(action, SearchAction::GiveUp));
    let (_, action) = search.next(SearchEvent::Found);
    assert!(matches!(action, SearchAction::Wait));
}

#[test]
fn a_search_ends_with_the_first_wallet() {
    let (search, _) = WalletSearch::new();
    let (search, _) = search.next(SearchEvent::Balances(balances(&[("a", 1)])));
    let (_, action) = search.next(SearchEvent::Found);
    assert!(matches!(action, SearchAction::UseWallet));
    let (search, _) = WalletSearch::new();
    let (search, action) = search.next(SearchEvent::Balances(balances(&[("a", 0)])));
    assert!(matches!(action, SearchAction::FetchMints));
    let (search, _) = search.next(SearchEvent::Mints(vec!["a".to_string()]));
    let (_, action) = search.next(SearchEvent::Found);
    assert!(matches!(action, SearchAction::UseWallet));
    let (search, _) = WalletSearch::new();
    let (search, _) = search.next(SearchEvent::Balances(balances(&[])));
    let (_, action) = search.next(SearchEvent::Mints(vec![]));
    assert!(matches!(action, SearchAction::GiveUp));
}

#[test]
fn minting_waits_for_the_payment() {
    let (task, action) = MintTask::new(21, Some("https://m"), "sat");
    assert!(matches!(action, MintAction::OpenWallet(mint) if mint == "https://m"));
    let (task, action) = task.next(MintEvent::Opened("https://m".to_string()));
    assert!(matches!(action, MintAction::RequestQuote(21)));
    let (task, action) =
        task.next(MintEvent::Quote { id: "q".to_string(), request: "lnbc1".to_string() });
    assert!(matches!(
        action,
        MintAction::Subscribe { report, quote_id }
            if quote_id == "q"
                && report == "🏦 Mint quote created:\nQuote ID: q\nAmount: 21 sat\n\
                   Payment request: lnbc1\nPlease pay this invoice to mint tokens\n\
                   ⏳ Waiting for payment...\n"
    ));
    let (task, action) = task.next(MintEvent::Notice { paid: false });
    assert!(matches!(action, MintAction::Listen));
    let (task, action) = task.next(MintEvent::Notice { paid: true });
    assert!(matches!(
        action,
        MintAction::MintTokens { report, quote_id }
            if quote_id == "q" && report == "✅ Payment received!\n"
    ));
    let (task, action) = task.next(MintEvent::Minted(vec![1, 4, 16]));
    assert!(matches!(
        action,
        MintAction::Report(text) if text == "🎉 Successfully minted 21 sat from https://m\n"
    ));
    let (_, action) = task.next(MintEvent::NoticesEnded);
    assert!(matches!(action, MintAction::Wait));
    assert_eq!(total_amount(&vec![]), 0);
}

#[test]
fn minting_goes_on_when_nothing_more_is_to_be_heard() {
    let (task, action) = MintTask::begin(1, "sat".to_string(), None);
    assert!(matches!(action, MintAction::FindWallet));
    let (task, _) = task.next(MintEvent::Opened("m".to_string()));
    let (task, _) =
        task.next(MintEvent::Quote { id: "q".to_string(), request: "r".to_string() });
    let (_, action) = task.next(MintEvent::NoticesEnded);
    assert!(matches!(
        action,
        MintAction::MintTokens { report, quote_id } if quote_id == "q" && report.is_empty()
    ));
}

#[test]
fn minting_fails_without_a_wallet() {
    let (_, action) = MintTask::new(1, Some("nowhere"), "sat");
    assert!(matches!(action, MintAction::Fail(WalletError::InvalidMintUrl)));
    let (task, _) = MintTask::new(1, None, "EUR");
    let (_, action) = task.next(MintEvent::NoWallet);
    match action {
        MintAction::Fail(error) => {
            assert_eq!(error.message(), "No wallets available for unit eur")
        }
        other => panic!("{:?}", other),
    }
}

#[test]
fn mint_infos_are_asked_of_the_named_mint() {
    assert!(matches!(mint_to_ask(Some("https://M/")), InfoAction::Ask(url) if url == "https://m"));
    assert!(matches!(
        mint_to_ask(Some("m")),
        InfoAction::Fail(WalletError::InvalidMintUrl)
    ));
    assert!(matches!(mint_to_ask(None), InfoAction::FindWallet));
    assert!(matches!(
        choose_mint(Some(Some("u".to_string()))),
        InfoAction::Ask(url) if url == "u"
    ));
    assert_eq!(info_heading("https://m"), "🏦 Mint Info for: https://m\n");
}

fn holdings(list: [(Option<u64>, bool); 5]) -> Vec<Holding> {
    deletable_units()
        .into_iter()
        .zip(list)
        .map(|(unit, (balance, has_wallet))| Holding {
            unit: unit.to_string(),
            balance,
            has_wallet,
        })
        .collect()
}

#[test]
fn a_deletion_names_every_wallet_with_funds() {
    let plan = plan_deletion(
        "https://m",
        &holdings([(Some(7), false), (Some(0), true), (None, true), (None, false), (Some(2), true)]),
    );
    match plan {
        Deletion::Wallets { report, units } => {
            assert_eq!(units, vec!["sat", "usd", "auth"]);
            assert_eq!(
                report,
                "\n⚠️  \x1b[91mWARNING: You are about to PERMANENTLY DELETE mint: https://m\x1b[0m\n\
                 This will remove the following wallets and their balances:\n\
                 \x20 🔥 \x1b[91m7 sat\x1b[0m - \x1b[93mFUNDS WILL BE LOST!\x1b[0m\n\
                 \x20 📦 0 usd (empty wallet)\n\
                 \x20 🔥 \x1b[91m2 auth\x1b[0m - \x1b[93mFUNDS WILL BE LOST!\x1b[0m\n\
                 \n\x1b[91m💀 TOTAL FUNDS THAT WILL BE LOST: 9 sats equivalent\x1b[0m\n\
                 \n🔥 \x1b[91mProceeding with deletion...\x1b[0m\n"
            );
        }
        other => panic!("{:?}", other),
    }
    assert_eq!(
        deletion_report("https://m", 3),
        "✅ Successfully deleted 3 wallet(s) for mint: https://m\n"
    );
}

#[test]
fn an_empty_deletion_says_so() {
    let nothing = [(None, false), (Some(0), false), (None, false), (None, false), (None, false)];
    assert!(matches!(
        plan_deletion("https://m", &holdings(nothing)),
        Deletion::Nothing { report } if report == "❌ No wallets found for mint: https://m\n"
    ));
    let empty = [(None, true), (None, false), (None, false), (None, false), (None, false)];
    match plan_deletion("https://m", &holdings(empty)) {
        Deletion::Wallets { report, units } => {
            assert_eq!(units, vec!["sat"]);
            assert!(!report.contains("TOTAL FUNDS"));
        }
        other => panic!("{:?}", other),
    }
}

#[test]
fn a_wallet_is_built_for_each_unit_of_each_mint() {
    let mints = vec![
        KnownMint { mint_url: "a".to_string(), units: None },
        KnownMint { mint_url: "b".to_string(), units: Some(vec![]) },
        KnownMint {
            mint_url: "c".to_string(),
            units: Some(vec!["usd".to_string(), "eur".to_string()]),
        },
    ];
    let expected: Vec<(String, String)> = [("a", "sat"), ("c", "usd"), ("c", "eur")]
        .iter()
        .map(|(m, u)| (m.to_string(), u.to_string()))
        .collect();
    assert_eq!(wallets_to_build(&mints), expected);
}

#[test]
fn seed_phrases_have_known_values() {
    let phrase = phrase_for([0; 32]);
    assert_eq!(phrase, format!("{}art", "abandon ".repeat(23)));
    let seed = read_seed(&phrase).unwrap();
    assert_eq!(
        hex::encode(seed),
        "408b285c123836004f4b8842c89324c1f01382450c0d439af345ba7fc49acf70\
         5489c6fc77dbd4e3dc1dd8cc6bc9f043db8ada1e243c4a0eafb290d399480840"
    );
}

#[test]
fn a_new_phrase_is_read_back_as_the_same_seed() {
    let new = unlock(None).unwrap();
    let phrase = new.to_write.unwrap();
    assert_eq!(phrase.split(' ').count(), 24);
    let again = unlock(Some(&phrase)).unwrap();
    assert_eq!(again.seed, new.seed);
    assert_eq!(again.to_write, None);
    assert_ne!(unlock(None).unwrap().to_write.unwrap(), phrase);
    let known = unlock_with(None, [0; 32]).unwrap();
    assert_eq!(known.to_write, Some(phrase_for([0; 32])));
    assert_eq!(known.seed, read_seed(&phrase_for([0; 32])).unwrap());
    assert!(matches!(unlock(Some("no phrase")), Err(WalletError::InvalidSeedPhrase { .. })));
}

#[test]
fn a_phrase_that_is_none_is_refused() {
    let words = |word: &str, count: usize| vec![word; count].join(" ");
    for (bad, why) in [
        (
            "not a phrase at all".to_string(),
            "mnemonic has an invalid word count: 5. Word count must be 12, 15, 18, 21, or 24",
        ),
        (
            words("abandon", 11),
            "mnemonic has an invalid word count: 11. Word count must be 12, 15, 18, 21, or 24",
        ),
        (
            words("abandon", 11) + " bitchat",
            "mnemonic contains an unknown word (word 11)",
        ),
        (words("abandon", 12), "the mnemonic has an invalid checksum"),
    ] {
        let error = read_seed(&bad).unwrap_err();
        assert_eq!(error.message(), why);
        assert!(matches!(&error, WalletError::InvalidSeedPhrase { reason } if reason == why));
        let error = unlock(Some(&bad)).err().unwrap();
        assert_eq!(error.message(), why);
    }
}

#[test]
fn a_token_in_the_chat_is_shown_as_what_it_says() {
    let token = "cashuBpGF0gaJhaUgArSaMTR9YJmFwgaNhYQFhc3hAOWE2ZGJiODQ3YmQyMzJiYTc2ZGIwZGYxOTcyMTZiMjlkM2I4Y2MxNDU1M2NkMjc4MjdmYzFjYzk0MmZlZGI0ZWFjWCEDhhhUP_trhpXfStS6vN6So0qWvc2X3O4NfM-Y1HISZ5JhZGlUaGFuayB5b3VhbXVodHRwOi8vbG9jYWxob3N0OjMzMzhhdWNzYXQ=";
    let message = chat_message(token);
    assert_eq!(message, format!("cashu:{token}"));
    let line = format_message_display(
        TimeOfDay::new(1, 2).unwrap(),
        "me",
        &message,
        false,
        true,
        Some("#c"),
        None,
        "me",
    );
    assert!(line.ends_with("🎫 Cashu Token v4: 1 sat from http://localhost:3338 (Thank you)"));
}

#[test]
fn the_user_is_told_what_became_of_a_token() {
    assert_eq!(chat_report(None), "✅ Cashu token sent to chat!\n");
    assert_eq!(
        chat_report(Some("offline")),
        "\x1b[91m❌ Failed to send message: offline\x1b[0m\n"
    );
    assert_eq!(
        token_failure("no funds"),
        "\x1b[91m❌ Failed to create cashu token: no funds\x1b[0m\n"
    );
}

#[test]
fn a_token_goes_to_the_chat_and_a_failure_to_the_user() {
    assert!(matches!(
        after_token(Ok("cashuBabc")),
        ChatStep::Send(message) if message == "cashu:cashuBabc"
    ));
    assert!(matches!(
        after_token(Err("no funds")),
        ChatStep::Fail { report, reason }
            if report == token_failure("no funds") && reason == "no funds"
    ));
}

#[test]
fn a_command_without_a_number_fails() {
    for line in ["mint x", "send_to_chat -1", "mint 18446744073709551616"] {
        let error = parse_command(line).failure().unwrap();
        assert!(matches!(error, WalletError::InvalidAmount));
        assert_eq!(error.message(), "Invalid amount");
    }
    for line in ["mint 5", "help", "mint", "nonsense", "balance"] {
        assert!(parse_command(line).failure().is_none());
    }
}
