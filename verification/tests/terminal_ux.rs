use base64::engine::general_purpose::{URL_SAFE, URL_SAFE_NO_PAD};
use base64::Engine;
use bitchat::terminal_ux::encoding::can_be_parsed;
use bitchat::terminal_ux::token::{decode_cashu_token, describe_token, TokenInfo};
use bitchat::terminal_ux::{format_message_display, ChatContext, ChatMode, TimeOfDay};
use ciborium::Value;

const V3: &str = "cashuAeyJ0b2tlbiI6W3sibWludCI6Imh0dHBzOi8vODMzMy5zcGFjZTozMzM4IiwicHJvb2ZzIjpbeyJhbW91bnQiOjIsImlkIjoiMDA5YTFmMjkzMjUzZTQxZSIsInNlY3JldCI6IjQwNzkxNWJjMjEyYmU2MWE3N2UzZTZkMmFlYjRjNzI3OTgwYmRhNTFjZDA2YTZhZmMyOWUyODYxNzY4YTc4MzciLCJDIjoiMDJiYzkwOTc5OTdkODFhZmIyY2M3MzQ2YjVlNDM0NWE5MzQ2YmQyYTUwNmViNzk1ODU5OGE3MmYwY2Y4NTE2M2VhIn0seyJhbW91bnQiOjgsImlkIjoiMDA5YTFmMjkzMjUzZTQxZSIsInNlY3JldCI6ImZlMTUxMDkzMTRlNjFkNzc1NmIwZjhlZTBmMjNhNjI0YWNhYTNmNGUwNDJmNjE0MzNjNzI4YzcwNTdiOTMxYmUiLCJDIjoiMDI5ZThlNTA1MGI4OTBhN2Q2YzA5NjhkYjE2YmMxZDVkNWZhMDQwZWExZGUyODRmNmVjNjlkNjEyOTlmNjcxMDU5In1dfV0sInVuaXQiOiJzYXQiLCJtZW1vIjoiVGhhbmsgeW91LiJ9";
const V4: &str = "cashuBo2F0gqJhaUgA_9SLj17PgGFwgaNhYQFhc3hAYWNjMTI0MzVlN2I4NDg0YzNjZjE4NTAxNDkyMThhZjkwZjcxNmE1MmJmNGE1ZWQzNDdlNDhlY2MxM2Y3NzM4OGFjWCECRFODGd5IXVW-07KaZCvuWHk3WrnnpiDhHki6SCQh88-iYWlIAK0mjE0fWCZhcIKjYWECYXN4QDEzMjNkM2Q0NzA3YTU4YWQyZTIzYWRhNGU5ZjFmNDlmNWE1YjRhYzdiNzA4ZWIwZDYxZjczOGY0ODMwN2U4ZWVhY1ghAjRWqhENhLSsdHrr2Cw7AFrKUL9Ffr1XN6RBT6w659lNo2FhAWFzeEA1NmJjYmNiYjdjYzY0MDZiM2ZhNWQ1N2QyMTc0ZjRlZmY4YjQ0MDJiMTc2OTI2ZDNhNTdkM2MzZGNiYjU5ZDU3YWNYIQJzEpxXGeWZN5qXSmJjY8MzxWyvwObQGr5G1YCCgHicY2FtdWh0dHA6Ly9sb2NhbGhvc3Q6MzMzOGF1Y3NhdA==";
const V3_TEXT: &str = "🎫 Cashu Token v3: 10 sat from https://8333.space:3338 (Thank you.)";
const V4_TEXT: &str = "🎫 Cashu Token v4: 4 sat from http://localhost:3338";

fn context() -> ChatContext {
    let mut context = ChatContext::new();
    context.add_channel("#rust");
    context.add_channel("#tor");
    context.add_dm("ann", "id-ann");
    context.add_dm("ben", "id-ben");
    context
}

fn time() -> TimeOfDay {
    TimeOfDay::new(9, 5).unwrap()
}

#[test]
fn a_new_context_lists_the_public_conversation_only() {
    let context = ChatContext::new();
    assert_eq!(context.get_status_line(), "Active: [1] Public");
    assert_eq!(context.format_prompt(), "[Public]");
    assert!(matches!(context.current_mode, ChatMode::Public));
    assert!(context.active_channels.is_empty());
    assert_eq!(context.active_dms.len(), 0);
    assert_eq!(context.last_private_sender, None);
}

#[test]
fn the_status_line_numbers_every_conversation() {
    assert_eq!(
        context().get_status_line(),
        "Active: [1] Public [2] #rust [3] #tor [4] DM:ann [5] DM:ben"
    );
}

#[test]
fn numbers_lead_to_the_conversations_of_the_status_line() {
    let mut context = context();
    assert!(context.switch_to_number(3));
    assert_eq!(context.current_mode.get_channel(), Some("#tor"));
    assert!(context.switch_to_number(5));
    assert_eq!(context.current_mode.get_dm_target(), Some(("ben", "id-ben")));
    assert!(context.switch_to_number(2));
    assert_eq!(context.current_mode.get_channel(), Some("#rust"));
    assert!(context.switch_to_number(4));
    assert_eq!(context.current_mode.get_dm_target(), Some(("ann", "id-ann")));
    // there is no sixth conversation, and the current one stays
    assert!(!context.switch_to_number(6));
    assert!(!context.switch_to_number(usize::MAX));
    assert_eq!(context.current_mode.get_dm_target(), Some(("ann", "id-ann")));
    assert!(context.switch_to_number(1));
    assert!(matches!(context.current_mode, ChatMode::Public));
}

#[test]
fn prompts_and_mode_infos_name_the_conversation() {
    let mut context = context();
    assert_eq!(context.get_mode_info(), "Public broadcast mode - messages visible to all");
    context.switch_to_channel("#rust");
    assert_eq!(context.format_prompt(), "[#rust]");
    assert_eq!(context.get_mode_info(), "Channel #rust - messages visible to channel members");
    context.enter_dm_mode("ann", "id-ann");
    assert_eq!(context.format_prompt(), "[DM: ann]");
    assert_eq!(context.get_mode_info(), "Private chat with ann - end-to-end encrypted");
}

#[test]
fn channels_are_listed_once() {
    let mut context = context();
    context.add_channel("#rust");
    context.switch_to_channel("#tor");
    context.switch_to_channel_silent("#new");
    assert_eq!(context.active_channels, vec!["#rust", "#tor", "#new"]);
    context.remove_channel("#tor");
    context.remove_channel("#none");
    assert_eq!(context.active_channels, vec!["#rust", "#new"]);
    // the current conversation stays what it is, listed or not
    context.remove_channel("#new");
    assert_eq!(context.current_mode.get_channel(), Some("#new"));
    assert_eq!(context.active_channels, vec!["#rust"]);
}

#[test]
fn a_conversation_that_was_switched_to_has_a_number() {
    let mut context = context();
    context.switch_to_channel("#new");
    assert!(context.get_status_line().contains("[4] #new"));
    context.enter_dm_mode("cid", "id-cid");
    assert!(context.switch_to_number(7));
    assert_eq!(context.current_mode.get_dm_target(), Some(("cid", "id-cid")));
    context.switch_to_public();
    assert!(matches!(context.current_mode, ChatMode::Public));
}

#[test]
fn a_nickname_that_is_added_again_gets_its_new_peer_id() {
    let mut context = context();
    context.add_dm("ann", "id-new");
    assert_eq!(context.active_dms.len(), 2);
    assert!(context.switch_to_number(4));
    assert_eq!(context.current_mode.get_dm_target(), Some(("ann", "id-new")));
}

#[test]
fn modes_know_their_targets() {
    let channel = ChatMode::Channel("#rust".to_string());
    let dm = ChatMode::PrivateDM { nickname: "ann".to_string(), peer_id: "id".to_string() };
    assert_eq!(channel.get_channel(), Some("#rust"));
    assert_eq!(channel.get_dm_target(), None);
    assert!(!channel.is_private());
    assert_eq!(dm.get_channel(), None);
    assert_eq!(dm.get_dm_target(), Some(("ann", "id")));
    assert!(dm.is_private());
    assert!(!ChatMode::Public.is_private());
    assert_eq!(ChatMode::Public.get_channel(), None);
}

#[test]
fn notices_say_what_was_switched_to() {
    let rule = "\x1b[90m─────────────────────────\x1b[0m\n\x1b[90m» ";
    assert_eq!(
        ChatMode::Public.switch_notice(),
        format!("{rule}Switched to Public chat. Just type to send messages.\x1b[0m\n")
    );
    assert_eq!(
        ChatMode::Channel("#rust".to_string()).switch_notice(),
        format!("{rule}Switched to channel #rust\x1b[0m\n")
    );
    let dm = ChatMode::PrivateDM { nickname: "ann".to_string(), peer_id: "id".to_string() };
    assert_eq!(
        dm.switch_notice(),
        format!("{rule}Switched to DM with ann. Just type to send messages.\x1b[0m\n")
    );
    assert_eq!(
        ChatContext::entered_dm_notice("ann"),
        format!("{rule}Entered DM mode with ann. Just type to send messages.\x1b[0m\n")
    );
}

#[test]
fn the_conversation_list_marks_the_current_one() {
    let mut context = ChatContext::new();
    context.add_channel("#rüst");
    context.enter_dm_mode("ann", "id");
    assert_eq!(
        context.show_conversation_list(),
        "\n╭─── Active Conversations ───╮\n\
         │                            │\n\
         │   [1] Public              │\n\
         │   [2] #rüst            │\n\
         │ → [3] DM: ann           │\n\
         │                            │\n\
         ╰────────────────────────────╯\n"
    );
    context.switch_to_number(2);
    assert!(context.show_conversation_list().contains("│ → [2] #rüst"));
    context.switch_to_public();
    assert!(context.show_conversation_list().contains("│ → [1] Public"));
}

#[test]
fn the_numbered_list_pads_names() {
    let mut context = ChatContext::new();
    context.add_channel("#rust");
    context.add_channel("#exactly-twenty-long");
    context.add_dm("ann", "id");
    assert_eq!(
        context.get_conversation_list_with_numbers(),
        "╭─── Select Conversation ───╮\n\
         │  1. Public                │\n\
         │  2. #rust               │\n\
         │  3. #exactly-twenty-long│\n\
         │  4. DM: ann             │\n\
         ╰───────────────────────────╯"
    );
}

#[test]
fn names_that_are_too_long_do_not_fit() {
    let mut context = ChatContext::new();
    context.add_channel("#exactly-twenty-long");
    context.add_dm("sixteen-letters!", "id");
    assert!(context.fits(20));
    assert!(!context.fits(19));
    context.add_channel("#zwanzig-und-ein-ü-x");
    assert!(!context.fits(20));
    let mut context = ChatContext::new();
    context.add_dm("seventeen-letters", "id");
    assert!(!context.fits(20));
}

#[test]
fn times_have_two_digits_each() {
    assert_eq!(time().format(), "09:05");
    assert_eq!(TimeOfDay::new(23, 59).unwrap().format(), "23:59");
    assert_eq!(TimeOfDay::new(0, 0).unwrap().format(), "00:00");
    assert!(TimeOfDay::new(24, 0).is_none());
    assert!(TimeOfDay::new(0, 60).is_none());
}

#[test]
fn private_messages_are_orange() {
    let show = |sender: &str, recipient: Option<&str>| {
        format_message_display(time(), sender, "hi", true, false, None, recipient, "me")
    };
    assert_eq!(
        show("me", Some("ann")),
        "\x1b[2;38;5;208m[09:05|DM]\x1b[0m \x1b[38;5;214m<you → ann>\x1b[0m hi"
    );
    assert_eq!(
        show("me", None),
        "\x1b[2;38;5;208m[09:05|DM]\x1b[0m \x1b[38;5;214m<you → ???>\x1b[0m hi"
    );
    assert_eq!(
        show("ann", Some("me")),
        "\x1b[2;38;5;208m[09:05|DM]\x1b[0m \x1b[38;5;208m<ann → you>\x1b[0m hi"
    );
}

#[test]
fn channel_messages_are_blue() {
    let show = |sender: &str, channel: Option<&str>| {
        format_message_display(time(), sender, "hi", false, true, channel, None, "me")
    };
    assert_eq!(
        show("me", Some("#rust")),
        "\x1b[2;34m[09:05|#rust]\x1b[0m \x1b[38;5;117m<me @ #rust>\x1b[0m hi"
    );
    assert_eq!(
        show("me", None),
        "\x1b[2;34m[09:05|Ch]\x1b[0m \x1b[38;5;117m<me @ ???>\x1b[0m hi"
    );
    assert_eq!(
        show("ann", Some("#rust")),
        "\x1b[2;34m[09:05|#rust]\x1b[0m \x1b[34m<ann @ #rust>\x1b[0m hi"
    );
    assert_eq!(
        show("ann", None),
        "\x1b[2;34m[09:05|Ch]\x1b[0m \x1b[34m<ann @ ???>\x1b[0m hi"
    );
}

#[test]
fn public_messages_are_green() {
    let show = |sender: &str, content: &str| {
        format_message_display(time(), sender, content, false, false, None, None, "me")
    };
    assert_eq!(show("me", "hi"), "\x1b[2;32m[09:05]\x1b[0m \x1b[38;5;120m<me>\x1b[0m hi");
    assert_eq!(show("ann", "hi"), "\x1b[2;32m[09:05]\x1b[0m \x1b[32m<ann>\x1b[0m hi");
    // only our own tokens are shown decoded
    assert_eq!(
        show("me", V4),
        format!("\x1b[2;32m[09:05]\x1b[0m \x1b[38;5;120m<me>\x1b[0m {V4_TEXT}")
    );
    assert_eq!(show("ann", V4), format!("\x1b[2;32m[09:05]\x1b[0m \x1b[32m<ann>\x1b[0m {V4}"));
}

#[test]
fn tokens_in_messages_are_decoded() {
    let show = |content: &str| {
        format_message_display(time(), "ann", content, true, false, None, None, "me")
    };
    let start = "\x1b[2;38;5;208m[09:05|DM]\x1b[0m \x1b[38;5;208m<ann → you>\x1b[0m ";
    assert_eq!(show(&format!("cashu:{V3}")), format!("{start}{V3_TEXT}"));
    assert_eq!(show(V3), format!("{start}{V3_TEXT}"));
    assert_eq!(show("cashu: not a token"), format!("{start}cashu: not a token"));
    assert_eq!(show("cash"), format!("{start}cash"));
}

#[test]
fn tokens_say_what_they_are_worth() {
    assert_eq!(decode_cashu_token(V3), Some(V3_TEXT.to_string()));
    assert_eq!(decode_cashu_token(&format!("cashu:{V4}")), Some(V4_TEXT.to_string()));
    assert_eq!(decode_cashu_token("cashuA"), None);
    assert_eq!(decode_cashu_token("cashuC1234"), None);
    assert_eq!(decode_cashu_token(""), None);
}

#[test]
fn what_a_token_does_not_say_is_replaced() {
    let info = TokenInfo { version: 3, amount: None, mint_url: None, memo: None, unit: None };
    assert_eq!(describe_token(&info), "🎫 Cashu Token v3: unknown sat from unknown mint");
    let info = TokenInfo {
        version: 4,
        amount: Some(u64::MAX),
        mint_url: Some("https://m".to_string()),
        memo: Some("m".to_string()),
        unit: Some("usd".to_string()),
    };
    assert_eq!(
        describe_token(&info),
        "🎫 Cashu Token v4: 18446744073709551615 usd from https://m (m)"
    );
}

const POINT: &str = "02bc9097997d81afb2cc7346b5e4345a9346bd2a506eb7958598a72f0cf85163ea";

fn v3(json: &str) -> String {
    format!("cashuA{}", URL_SAFE.encode(json))
}

fn v3_with_proof(proof: &str) -> String {
    v3(&format!(r#"{{"token":[{{"mint":"https://m.co","proofs":[{proof}]}}],"unit":"sat"}}"#))
}

fn v3_with_id(id: &str) -> String {
    v3_with_proof(&format!(r#"{{"amount":2,"id":"{id}","secret":"s","C":"{POINT}"}}"#))
}

/// A token of version 4 whose groups, in place of their keyset ids, have these entries.
fn v4_with(entries: &[(Value, Value)]) -> String {
    let bytes = URL_SAFE.decode(&V4[6..]).unwrap();
    let mut token: Value = ciborium::from_reader(bytes.as_slice()).unwrap();
    for (key, value) in token.as_map_mut().unwrap() {
        if key.as_text() == Some("t") {
            for group in value.as_array_mut().unwrap() {
                let group = group.as_map_mut().unwrap();
                group.retain(|(key, _)| key.as_text() != Some("i"));
                for entry in entries.iter().rev() {
                    group.insert(0, entry.clone());
                }
            }
        }
    }
    let mut bytes = Vec::new();
    ciborium::into_writer(&token, &mut bytes).unwrap();
    format!("cashuB{}", URL_SAFE.encode(bytes))
}

fn v4_with_id(id: Value) -> String {
    v4_with(&[(Value::Text("i".to_string()), id)])
}

const KEYSET: [u8; 8] = [0, 0xff, 0xd4, 0x8b, 0x8f, 0x5e, 0xcf, 0x80];

#[test]
fn a_token_with_an_empty_keyset_id_is_shown_as_it_came() {
    let empty = "cashuBo2FtbGh0dHBzOi8vbS5jb2F1Y3NhdGF0gaJhaUBhcIA=";
    assert!(!can_be_parsed(empty));
    assert_eq!(decode_cashu_token(empty), None);
    assert_eq!(
        format_message_display(time(), "ann", empty, true, false, None, None, "me"),
        format!("\x1b[2;38;5;208m[09:05|DM]\x1b[0m \x1b[38;5;208m<ann → you>\x1b[0m {empty}")
    );
    for id in [
        Value::Bytes(vec![]),
        Value::Array(vec![]),
        Value::Tag(9, Box::new(Value::Bytes(vec![]))),
        Value::Tag(2, Box::new(Value::Bytes(vec![]))),
        Value::Tag(9, Box::new(Value::Tag(9, Box::new(Value::Array(vec![]))))),
    ] {
        let text = v4_with_id(id);
        assert!(!can_be_parsed(&text));
        assert_eq!(decode_cashu_token(&text), None);
    }
    let name = Value::Text("i".to_string());
    let (none, whole) = (Value::Bytes(vec![]), Value::Bytes(KEYSET.to_vec()));
    for entries in [
        [(Value::Bytes(b"i".to_vec()), none.clone()), (name.clone(), whole.clone())],
        [(name.clone(), none.clone()), (name.clone(), whole.clone())],
        [(Value::Tag(9, Box::new(name.clone())), none.clone()), (name.clone(), whole.clone())],
        [(Value::Tag(2, Box::new(Value::Bytes(b"i".to_vec()))), none.clone()), (name, whole)],
    ] {
        let text = v4_with(&entries);
        assert!(!can_be_parsed(&text));
        assert_eq!(decode_cashu_token(&text), None);
    }
}

#[test]
fn a_token_with_a_character_across_the_cut_of_its_id_is_shown_as_it_came() {
    let split = "a€€€€€";
    assert_eq!(split.len(), 16);
    let id_twice = format!(
        r#"{{"amount":2,"id":"{split}","id":"009a1f293253e41e","secret":"s","C":"{POINT}"}}"#
    );
    let listed = format!(r#"[2,"{split}","s","{POINT}",null,null]"#);
    for text in [
        v3_with_id(split),
        v3_with_id("a\\u20ac\\u20ac\\u20ac\\u20ac\\u20ac"),
        v3_with_proof(&id_twice),
        v3_with_proof(&listed),
        v3(&format!(r#"[[["https://m.co",[{listed}]]],null,"sat"]"#)),
    ] {
        assert!(!can_be_parsed(&text));
        assert_eq!(decode_cashu_token(&text), None);
        assert_eq!(decode_cashu_token(&format!("cashu:{text}")), None);
    }
}

#[test]
fn tokens_whose_ids_are_sound_are_decoded_in_every_shape() {
    let worth_two = Some("🎫 Cashu Token v3: 2 sat from https://m.co".to_string());
    assert_eq!(decode_cashu_token(&v3_with_id("009a1f293253e41e")), worth_two);
    assert_eq!(
        decode_cashu_token(&v3_with_proof(&format!(
            r#"[2,"009a1f293253e41e","s","{POINT}",null,null]"#
        ))),
        worth_two
    );
    assert_eq!(
        decode_cashu_token(&v4_with_id(Value::Bytes(KEYSET.to_vec()))),
        Some(V4_TEXT.to_string())
    );
    let numbers = KEYSET.iter().map(|b| Value::from(*b)).collect();
    assert_eq!(decode_cashu_token(&v4_with_id(Value::Array(numbers))), Some(V4_TEXT.to_string()));
    let tagged = Value::Tag(9, Box::new(Value::Bytes(KEYSET.to_vec())));
    assert_eq!(decode_cashu_token(&v4_with_id(tagged)), Some(V4_TEXT.to_string()));
    // a field that groups do not have may hold anything
    let name = |text: &str| Value::Text(text.to_string());
    let entries = [
        (name("i"), Value::Bytes(KEYSET.to_vec())),
        (name("x"), Value::Map(vec![(name("i"), Value::Bytes(vec![]))])),
    ];
    assert_eq!(decode_cashu_token(&v4_with(&entries)), Some(V4_TEXT.to_string()));
    // padding may be left out
    let bytes = URL_SAFE.decode(&V4[6..]).unwrap();
    let bare = format!("cashuB{}", URL_SAFE_NO_PAD.encode(bytes));
    assert_eq!(decode_cashu_token(&bare), Some(V4_TEXT.to_string()));
}

#[test]
fn fields_that_tokens_do_not_have_may_hold_anything() {
    let worth_two = Some("🎫 Cashu Token v3: 2 sat from https://m.co".to_string());
    let deep = format!("{}{}", "[".repeat(1000), "]".repeat(1000));
    for extra in [
        "1e999",
        "-1.5E+400",
        r#""\ud800""#,
        r#""]}\"\\""#,
        r#"{"id":"a€€€€€","token":[{"proofs":[{"id":"a€€€€€"}]}]}"#,
        "[ ]",
        "null",
        deep.as_str(),
    ] {
        let proof =
            format!(r#"{{"x":{extra},"amount":2,"id":"009a1f293253e41e","secret":"s","C":"{POINT}"}}"#);
        let entry = format!(r#"{{"y" : {extra} ,"mint":"https://m.co","proofs":[{proof}]}}"#);
        let text = v3(&format!("\n {{ \"z\":{extra},\t\"token\":[{entry}],\"unit\":\"sat\"}} "));
        assert!(can_be_parsed(&text));
        assert_eq!(decode_cashu_token(&text), worth_two, "{extra}");
        // and they hide no id
        let bad = text_of(&text).replace("009a1f293253e41e", "a€€€€€");
        assert!(!can_be_parsed(&v3(&bad)), "{extra}");
    }
}

fn text_of(token: &str) -> String {
    String::from_utf8(URL_SAFE.decode(&token[6..]).unwrap()).unwrap()
}

#[test]
fn tags_in_front_of_values_are_passed_over() {
    let whole = Value::Bytes(KEYSET.to_vec());
    for tag in [2, 3, 9] {
        let id = Value::Tag(tag, Box::new(whole.clone()));
        assert_eq!(decode_cashu_token(&v4_with_id(id)), Some(V4_TEXT.to_string()));
        let zero = Value::Tag(tag, Box::new(Value::Bytes(vec![0])));
        assert_eq!(decode_cashu_token(&v4_with_id(zero)), Some(V4_TEXT.to_string()));
        let name = Value::Tag(tag, Box::new(Value::Bytes(b"i".to_vec())));
        assert_eq!(decode_cashu_token(&v4_with(&[(name, whole.clone())])), Some(V4_TEXT.to_string()));
    }
    let mut many = whole;
    for _ in 0..120 {
        many = Value::Tag(9, Box::new(many));
    }
    assert_eq!(decode_cashu_token(&v4_with_id(many)), Some(V4_TEXT.to_string()));
}

/// A token of version 4 in which everything that can be is of a length that is not told.
fn v4_in_pieces(id: &[u8]) -> String {
    let mut bytes = vec![0xbf, 0x61, b't', 0x9f, 0xbf, 0x61, b'i'];
    bytes.extend_from_slice(id);
    bytes.extend_from_slice(&[0x61, b'p', 0x9f, 0xff, 0xff, 0xff, 0x61, b'm', 0x7f, 0x68]);
    bytes.extend_from_slice(b"https://");
    bytes.extend_from_slice(&[0x60, 0x64]);
    bytes.extend_from_slice(b"m.co");
    bytes.extend_from_slice(&[0xff, 0x61, b'u', 0x63]);
    bytes.extend_from_slice(b"sat");
    bytes.push(0xff);
    format!("cashuB{}", URL_SAFE.encode(bytes))
}

#[test]
fn tokens_in_pieces_are_read() {
    let nothing = Some("🎫 Cashu Token v4: 0 sat from https://m.co".to_string());
    for id in [
        &[0x5f, 0x42, 0x00, 0xff, 0x40, 0x41, 0xd4, 0xff][..],
        &[0x5f, 0x5f, 0x41, 0x00, 0xff, 0x40, 0xff],
        &[0x9f, 0x00, 0x18, 0xff, 0xff],
        &[0x83, 0x00, 0x01, 0x02],
        &[0xc2, 0xd8, 0x64, 0x58, 0x01, 0x00],
    ] {
        let text = v4_in_pieces(id);
        assert!(can_be_parsed(&text));
        assert_eq!(decode_cashu_token(&text), nothing);
    }
    for id in [
        &[0x40][..],
        &[0x58, 0x00],
        &[0x5f, 0xff],
        &[0x5f, 0x40, 0x5f, 0x40, 0xff, 0xff],
        &[0x80],
        &[0x9b, 0, 0, 0, 0, 0, 0, 0, 0],
        &[0x9f, 0xff],
        &[0xc2, 0x40],
        &[0xc3, 0xd8, 0x64, 0x80],
    ] {
        let text = v4_in_pieces(id);
        assert!(!can_be_parsed(&text));
        assert_eq!(decode_cashu_token(&text), None);
        // what follows the id does not matter any more
        let bytes = URL_SAFE.decode(&text[6..]).unwrap();
        let cut = format!("cashuB{}", URL_SAFE.encode(&bytes[..7 + id.len()]));
        assert!(!can_be_parsed(&cut));
        assert_eq!(decode_cashu_token(&cut), None);
    }
    // ids that are refused, but do no harm
    for id in [&[0x00][..], &[0x60], &[0xf6], &[0xa0], &[0x5f, 0x60, 0xff], &[0x41, 0x09]] {
        let text = v4_in_pieces(id);
        assert!(can_be_parsed(&text));
        assert_eq!(decode_cashu_token(&text), None);
    }
}

#[test]
fn texts_that_encode_no_token_are_refused_without_harm() {
    let deep = format!("cashuB{}", URL_SAFE.encode(vec![0x81; 100_000]));
    let tags = format!("cashuB{}", URL_SAFE.encode(vec![0xc9; 100_000]));
    let open = format!("cashuB{}", URL_SAFE.encode(vec![0xbf; 100_000]));
    let unclosed = v3(&"[".repeat(100_000));
    for text in [
        "", "cashu", "cashuA", "cashuB", "cashuA!", "cashuB=", "cashuC", "cashuAe30x", "cashuBgQ",
        &deep, &tags, &open, &unclosed,
    ] {
        assert!(can_be_parsed(text));
        assert_eq!(decode_cashu_token(text), None);
    }
    assert!(can_be_parsed(V3) && can_be_parsed(V4));
    // ids of other lengths, or whose second byte ends a character, are refused
    for id in ["", "é", "00€", "€€€€€€", "é€€€€é"] {
        let text = v3_with_id(id);
        assert!(can_be_parsed(&text));
        assert_eq!(decode_cashu_token(&text), None);
    }
    assert_eq!("é€€€€é".len(), 16);
}
