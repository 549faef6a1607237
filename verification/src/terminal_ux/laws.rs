//! What holds of conversations, messages and tokens as the terminal shows them.

pub mod encodings;

use vstd::prelude::*;
use vstd::utf8::encode_utf8;

use crate::terminal_ux::chat::{
    conversation, conversations, in_channel, in_dm, marked_list, mode_text, names_fit,
    numbered_list, other_channels, prompt_text, status_line, switch_notice, switched, with_channel,
    with_dm, without_channel, Chat, Mode,
};
use crate::terminal_ux::encoding::ids_are_sound;
use crate::terminal_ux::message::{clock_text, message_line, shown_content, TimeOfDay};
use crate::terminal_ux::token::{decoded, lowercase, parsed_token, token_text, TokenFacts};
use crate::text::{blank, concat_rows, decimal_text, rows_join};

verus! {

/// The conversations are numbered without gaps: the public one is the first, then come the channels
/// in their order, and then the direct conversations in theirs.
pub proof fn conversations_are_numbered_in_order(chat: Chat, i: int)
    ensures
        conversations(chat) == 1 + chat.channels.len() + chat.dm_names.len(),
        conversation(chat, 1) == Mode::Public,
        0 <= i < chat.channels.len() ==> conversation(chat, 2 + i) == Mode::Channel(
            chat.channels[i],
        ),
        0 <= i < chat.dm_names.len() ==> conversation(chat, 2 + chat.channels.len() + i) == (
        Mode::PrivateDM { nickname: chat.dm_names[i], peer_id: chat.dms[chat.dm_names[i]] }),
{
}

/// The list that marks the current conversation has, after its head, one row for each conversation
/// from the second on. The row carries the number that leads to the conversation, and its name; an
/// arrow stands before the current one and before no other.
pub proof fn the_marked_list_has_a_row_for_every_number(chat: Chat)
    ensures
        marked_list(chat)
            == "\n╭─── Active Conversations ───╮\n│                            │\n│ "@ + (
        if chat.mode is Public {
            "→"@
        } else {
            " "@
        }) + " [1] Public              │\n"@ + concat_rows(
            (conversations(chat) - 1) as nat,
            |i: int|
                {
                    let talk = conversation(chat, i + 2);
                    let name = match talk {
                        Mode::Public => Seq::empty(),
                        Mode::Channel(name) => name,
                        Mode::PrivateDM { nickname, .. } => "DM: "@ + nickname,
                    };
                    let current = match (talk, chat.mode) {
                        (Mode::Channel(a), Mode::Channel(b)) => a == b,
                        (
                            Mode::PrivateDM { nickname: a, .. },
                            Mode::PrivateDM { nickname: b, .. },
                        ) => a == b,
                        _ => false,
                    };
                    "│ "@ + (if current {
                        "→"@
                    } else {
                        " "@
                    }) + " ["@ + decimal_text((i + 2) as nat) + "] "@ + (name + blank(
                        (18 - encode_utf8(name).len()) as nat,
                    )) + "│\n"@
                },
        ) + "│                            │\n╰────────────────────────────╯\n"@,
{
    let n = chat.channels.len();
    let m = chat.dm_names.len();
    let h = |i: int|
        {
            let talk = conversation(chat, i + 2);
            let name = match talk {
                Mode::Public => Seq::empty(),
                Mode::Channel(name) => name,
                Mode::PrivateDM { nickname, .. } => "DM: "@ + nickname,
            };
            let current = match (talk, chat.mode) {
                (Mode::Channel(a), Mode::Channel(b)) => a == b,
                (Mode::PrivateDM { nickname: a, .. }, Mode::PrivateDM { nickname: b, .. }) => a
                    == b,
                _ => false,
            };
            "│ "@ + (if current {
                "→"@
            } else {
                " "@
            }) + " ["@ + decimal_text((i + 2) as nat) + "] "@ + (name + blank(
                (18 - encode_utf8(name).len()) as nat,
            )) + "│\n"@
        };
    let f = |i: int|
        crate::terminal_ux::chat::marked_row(
            chat.mode == Mode::Channel(chat.channels[i]),
            i + 2,
            chat.channels[i],
        );
    let g = |i: int|
        crate::terminal_ux::chat::marked_row(
            crate::terminal_ux::chat::dm_is_current(chat.mode, chat.dm_names[i]),
            i + 2 + chat.channels.len(),
            crate::terminal_ux::chat::dm_label(chat.dm_names[i]),
        );
    rows_join(n, m, f, g, h);
    let head = "\n╭─── Active Conversations ───╮\n│                            │\n│ "@ + (
    if chat.mode is Public {
        "→"@
    } else {
        " "@
    }) + " [1] Public              │\n"@;
    assert(head + concat_rows(n, f) + concat_rows(m, g) =~= head + (concat_rows(n, f)
        + concat_rows(m, g)));
}

/// The list to select from has, after its head, one row for each conversation from the second on,
/// with the number that leads to the conversation and its name.
pub proof fn the_numbered_list_has_a_row_for_every_number(chat: Chat)
    ensures
        numbered_list(chat)
            == "╭─── Select Conversation ───╮\n│  1. Public                │\n"@ + concat_rows(
            (conversations(chat) - 1) as nat,
            |i: int|
                {
                    let name = match conversation(chat, i + 2) {
                        Mode::Public => Seq::empty(),
                        Mode::Channel(name) => name,
                        Mode::PrivateDM { nickname, .. } => "DM: "@ + nickname,
                    };
                    "│  "@ + decimal_text((i + 2) as nat) + ". "@ + (name + blank(
                        (20 - encode_utf8(name).len()) as nat,
                    )) + "│\n"@
                },
        ) + "╰───────────────────────────╯"@,
{
    let n = chat.channels.len();
    let m = chat.dm_names.len();
    let h = |i: int|
        {
            let name = match conversation(chat, i + 2) {
                Mode::Public => Seq::empty(),
                Mode::Channel(name) => name,
                Mode::PrivateDM { nickname, .. } => "DM: "@ + nickname,
            };
            "│  "@ + decimal_text((i + 2) as nat) + ". "@ + (name + blank(
                (20 - encode_utf8(name).len()) as nat,
            )) + "│\n"@
        };
    let f = |i: int| crate::terminal_ux::chat::numbered_row(i + 2, chat.channels[i]);
    let g = |i: int|
        crate::terminal_ux::chat::numbered_row(
            i + 2 + chat.channels.len(),
            crate::terminal_ux::chat::dm_label(chat.dm_names[i]),
        );
    rows_join(n, m, f, g, h);
    let head = "╭─── Select Conversation ───╮\n│  1. Public                │\n"@;
    assert(head + concat_rows(n, f) + concat_rows(m, g) =~= head + (concat_rows(n, f)
        + concat_rows(m, g)));
}

/// The status line names every conversation after its number, in the order of the numbers.
pub proof fn the_status_line_names_every_number(chat: Chat)
    ensures
        status_line(chat) == "Active:"@ + concat_rows(
            conversations(chat),
            |i: int|
                " "@ + ("["@ + decimal_text((i + 1) as nat) + "] "@ + (match conversation(
                    chat,
                    i + 1,
                ) {
                    Mode::Public => "Public"@,
                    Mode::Channel(name) => name,
                    Mode::PrivateDM { nickname, .. } => "DM:"@ + nickname,
                })),
        ),
{
    let f = |i: int| " "@ + crate::terminal_ux::chat::status_entry(chat, i + 1);
    let h = |i: int|
        " "@ + ("["@ + decimal_text((i + 1) as nat) + "] "@ + (match conversation(chat, i + 1) {
            Mode::Public => "Public"@,
            Mode::Channel(name) => name,
            Mode::PrivateDM { nickname, .. } => "DM:"@ + nickname,
        }));
    rows_join(conversations(chat), 0, f, f, h);
    assert(concat_rows(conversations(chat), f) + concat_rows(0, f) =~= concat_rows(
        conversations(chat),
        f,
    ));
}

/// A conversation that is added comes after those of its kind, and a channel that is taken off is
/// the only one to go: all others keep their order, and nothing but the list changes. What was added
/// before keeps its place, and a direct conversation takes the peer that it was given last.
pub proof fn lists_grow_at_their_ends(
    chat: Chat,
    channel: Seq<char>,
    nickname: Seq<char>,
    peer_id: Seq<char>,
)
    ensures
        with_channel(chat, channel) == (Chat {
            channels: if chat.channels.contains(channel) {
                chat.channels
            } else {
                chat.channels.push(channel)
            },
            mode: chat.mode,
            dm_names: chat.dm_names,
            dms: chat.dms,
            last_private_sender: chat.last_private_sender,
        }),
        with_dm(chat, nickname, peer_id).dm_names == (if chat.dm_names.contains(nickname) {
            chat.dm_names
        } else {
            chat.dm_names.push(nickname)
        }),
        with_dm(chat, nickname, peer_id).dms[nickname] == peer_id,
        forall|other: Seq<char>|
            other != nickname ==> #[trigger] with_dm(chat, nickname, peer_id).dms[other]
                == chat.dms[other],
        with_dm(chat, nickname, peer_id).channels == chat.channels,
        with_dm(chat, nickname, peer_id).mode == chat.mode,
        with_dm(chat, nickname, peer_id).last_private_sender == chat.last_private_sender,
        without_channel(chat, channel).mode == chat.mode,
        without_channel(chat, channel).dm_names == chat.dm_names,
        without_channel(chat, channel).dms == chat.dms,
        without_channel(chat, channel).last_private_sender == chat.last_private_sender,
{
}

/// Taking a channel off the list takes it out wherever it stands, and leaves what stands before and
/// after it: it can be done part by part.
pub proof fn channels_are_taken_off_part_by_part(
    chat: Chat,
    before: Seq<Seq<char>>,
    after: Seq<Seq<char>>,
    channel: Seq<char>,
)
    requires
        chat.channels == before + seq![channel] + after,
        !before.contains(channel),
        !after.contains(channel),
    ensures
        without_channel(chat, channel).channels == before + after,
{
    lemma_channel_off(before, after, channel);
}

proof fn lemma_channel_off(before: Seq<Seq<char>>, after: Seq<Seq<char>>, channel: Seq<char>)
    requires
        !before.contains(channel),
        !after.contains(channel),
    ensures
        other_channels(before + seq![channel] + after, channel) == before + after,
    decreases after.len(),
{
    reveal(Seq::filter);
    let list = before + seq![channel] + after;
    if after.len() == 0 {
        lemma_all_kept(before, channel);
        assert(list.drop_last() =~= before);
        assert(list.last() == channel);
        assert(before + after =~= before);
    } else {
        let head = after.drop_last();
        let last = after.last();
        assert(after[after.len() - 1] == last);
        assert(!head.contains(channel)) by {
            if head.contains(channel) {
                let i = choose|i: int| 0 <= i < head.len() && head[i] == channel;
                assert(after[i] == channel);
            }
        }
        lemma_channel_off(before, head, channel);
        assert(list.drop_last() =~= before + seq![channel] + head);
        assert(list.last() == last);
        assert((before + head).push(last) =~= before + after);
    }
}

proof fn lemma_all_kept(list: Seq<Seq<char>>, channel: Seq<char>)
    requires
        !list.contains(channel),
    ensures
        other_channels(list, channel) == list,
    decreases list.len(),
{
    reveal(Seq::filter);
    if list.len() > 0 {
        let head = list.drop_last();
        assert(!head.contains(channel)) by {
            if head.contains(channel) {
                let i = choose|i: int| 0 <= i < head.len() && head[i] == channel;
                assert(list[i] == channel);
            }
        }
        lemma_all_kept(head, channel);
        assert(list[list.len() - 1] == list.last());
        assert(head.push(list.last()) =~= list);
    } else {
        assert(other_channels(list, channel) =~= list);
    }
}

/// Switching is announced by the name of the conversation.
pub proof fn switching_is_announced(name: Seq<char>, peer_id: Seq<char>)
    ensures
        switch_notice(Mode::Public)
            == "\x1b[90m─────────────────────────\x1b[0m\n\x1b[90m» Switched to "@
            + "Public chat. Just type to send messages."@ + "\x1b[0m\n"@,
        switch_notice(Mode::Channel(name))
            == "\x1b[90m─────────────────────────\x1b[0m\n\x1b[90m» Switched to "@ + (
        "channel "@ + name) + "\x1b[0m\n"@,
        switch_notice(Mode::PrivateDM { nickname: name, peer_id })
            == "\x1b[90m─────────────────────────\x1b[0m\n\x1b[90m» Switched to "@ + ("DM with "@
            + name + ". Just type to send messages."@) + "\x1b[0m\n"@,
{
}

/// The time of day is written as hour and minute, both in two digits.
pub proof fn times_are_written_in_two_digits(time: TimeOfDay)
    requires
        time.hour() < 24,
        time.minute() < 60,
    ensures
        clock_text(time) == (if time.hour() < 10 {
            seq!['0'] + decimal_text(time.hour() as nat)
        } else {
            decimal_text(time.hour() as nat)
        }) + ":"@ + (if time.minute() < 10 {
            seq!['0'] + decimal_text(time.minute() as nat)
        } else {
            decimal_text(time.minute() as nat)
        }),
{
    crate::text::two_digits_pad_with_zero(time.hour() as nat);
    crate::text::two_digits_pad_with_zero(time.minute() as nat);
}

/// A private message says who wrote to whom: from us to its recipient, or from its sender to us. It
/// is private whatever else it is.
pub proof fn private_messages_name_the_other_side(
    time: Seq<char>,
    sender: Seq<char>,
    content: Seq<char>,
    shown: Seq<char>,
    is_channel: bool,
    channel_name: Option<Seq<char>>,
    recipient: Option<Seq<char>>,
    me: Seq<char>,
)
    ensures
        sender == me ==> message_line(
            time,
            sender,
            content,
            shown,
            true,
            is_channel,
            channel_name,
            recipient,
            me,
        ) == "\x1b[2;38;5;208m["@ + time + "|DM]\x1b[0m \x1b[38;5;214m<you → "@ + (match recipient {
            Some(name) => name,
            None => "???"@,
        }) + ">\x1b[0m "@ + shown,
        sender != me ==> message_line(
            time,
            sender,
            content,
            shown,
            true,
            is_channel,
            channel_name,
            recipient,
            me,
        ) == "\x1b[2;38;5;208m["@ + time + "|DM]\x1b[0m \x1b[38;5;208m<"@ + sender
            + " → you>\x1b[0m "@ + shown,
{
}

/// A channel message names its sender and its channel, and has a colour of its own where it is ours.
pub proof fn channel_messages_name_the_channel(
    time: Seq<char>,
    sender: Seq<char>,
    content: Seq<char>,
    shown: Seq<char>,
    channel: Seq<char>,
    recipient: Option<Seq<char>>,
    me: Seq<char>,
)
    ensures
        message_line(time, sender, content, shown, false, true, Some(channel), recipient, me)
            == "\x1b[2;34m["@ + time + "|"@ + channel + "]\x1b[0m "@ + (if sender == me {
            "\x1b[38;5;117m<"@
        } else {
            "\x1b[34m<"@
        }) + sender + " @ "@ + channel + ">\x1b[0m "@ + shown,
        message_line(time, sender, content, shown, false, true, None, recipient, me)
            == "\x1b[2;34m["@ + time + "|"@ + "Ch"@ + "]\x1b[0m "@ + (if sender == me {
            "\x1b[38;5;117m<"@
        } else {
            "\x1b[34m<"@
        }) + sender + " @ "@ + "???"@ + ">\x1b[0m "@ + shown,
{
}

/// A public message names its sender. Ours shows what a token says, another's shows what was sent.
pub proof fn public_messages_name_the_sender(
    time: Seq<char>,
    sender: Seq<char>,
    content: Seq<char>,
    shown: Seq<char>,
    channel_name: Option<Seq<char>>,
    recipient: Option<Seq<char>>,
    me: Seq<char>,
)
    ensures
        sender == me ==> message_line(
            time,
            sender,
            content,
            shown,
            false,
            false,
            channel_name,
            recipient,
            me,
        ) == "\x1b[2;32m["@ + time + "]\x1b[0m "@ + "\x1b[38;5;120m<"@ + sender + ">\x1b[0m "@ + shown,
        sender != me ==> message_line(
            time,
            sender,
            content,
            shown,
            false,
            false,
            channel_name,
            recipient,
            me,
        ) == "\x1b[2;32m["@ + time + "]\x1b[0m "@ + "\x1b[32m<"@ + sender + ">\x1b[0m "@ + content,
{
}

/// A token is shown with what was parsed of it: version, amount, unit in lower case, mint and memo.
/// `sat` stands only where the token names no unit.
pub proof fn tokens_are_shown_as_what_they_say(facts: TokenFacts)
    ensures
        token_text(facts) == "🎫 Cashu Token v"@ + decimal_text(facts.version as nat) + ": "@ + (
        match facts.amount {
            Some(n) => decimal_text(n as nat),
            None => "unknown"@,
        }) + " "@ + (match facts.unit {
            Some(unit) => unit,
            None => "sat"@,
        }) + " from "@ + (match facts.mint_url {
            Some(url) => url,
            None => "unknown mint"@,
        }) + (match facts.memo {
            Some(memo) => " ("@ + memo + ")"@,
            None => ""@,
        }),
{
}

/// A text that a token is parsed from is shown as that token, with or without `cashu:` in front:
/// its unit in lower case, and `sat` only where it has none. A text that none is parsed from is not
/// shown so.
pub proof fn parsed_tokens_are_shown(bare: Seq<char>)
    requires
        !"cashu:"@.is_prefix_of(bare),
        ids_are_sound(bare),
    ensures
        decoded("cashu:"@ + bare) == decoded(bare),
        parsed_token(bare) is None ==> decoded(bare) is None,
        parsed_token(bare) matches Some(facts) ==> decoded(bare) == Some(
            "🎫 Cashu Token v"@ + decimal_text(facts.version as nat) + ": "@ + (
            match facts.amount {
                Some(n) => decimal_text(n as nat),
                None => "unknown"@,
            }) + " "@ + (match facts.unit {
                Some(unit) => lowercase(unit),
                None => "sat"@,
            }) + " from "@ + (match facts.mint_url {
                Some(url) => url,
                None => "unknown mint"@,
            }) + (match facts.memo {
                Some(memo) => " ("@ + memo + ")"@,
                None => ""@,
            }),
        ),
{
    reveal_strlit("cashu:");
    let whole = "cashu:"@ + bare;
    assert(whole.subrange(0, 6) =~= "cashu:"@);
    assert(whole.subrange(6, whole.len() as int) =~= bare);
    assert(bare.len() >= 6 ==> bare.subrange(0, 6) != "cashu:"@) by {
        if bare.len() >= 6 && bare.subrange(0, 6) == "cashu:"@ {
            assert("cashu:"@.is_prefix_of(bare));
        }
    }
}

/// Of a text behind `cashu:`, whatever it begins with itself, the token is shown that is parsed from
/// the text as it is.
pub proof fn one_scheme_is_taken_off(text: Seq<char>)
    ensures
        parsed_token(text) is None || !ids_are_sound(text) ==> decoded("cashu:"@ + text) is None,
        ids_are_sound(text) ==> (parsed_token(text) matches Some(facts) ==> decoded(
            "cashu:"@ + text,
        ) == Some(
            token_text(
                TokenFacts {
                    version: facts.version,
                    amount: facts.amount,
                    mint_url: facts.mint_url,
                    memo: facts.memo,
                    unit: match facts.unit {
                        Some(unit) => Some(lowercase(unit)),
                        None => None,
                    },
                },
            ),
        )),
{
    reveal_strlit("cashu:");
    let whole = "cashu:"@ + text;
    assert(whole.subrange(0, 6) =~= "cashu:"@);
    assert(whole.subrange(6, whole.len() as int) =~= text);
}

/// What a message says is replaced only where it begins with `cashu` and a token can be shown for
/// it.
pub proof fn only_tokens_are_replaced(content: Seq<char>, rest: Seq<char>)
    ensures
        !"cashu"@.is_prefix_of(content) ==> shown_content(content) == content,
        decoded(content) is None ==> shown_content(content) == content,
        decoded("cashu"@ + rest) matches Some(text) ==> shown_content("cashu"@ + rest) == text,
{
    reveal_strlit("cashu");
    assert(("cashu"@ + rest).subrange(0, 5) =~= "cashu"@);
    if content.len() >= 5 && content.subrange(0, 5) == "cashu"@ {
        assert("cashu"@.is_prefix_of(content));
    }
}

/// The prompt and the description of a conversation name it.
pub proof fn conversations_are_named(name: Seq<char>, peer_id: Seq<char>)
    ensures
        prompt_text(Mode::Public) == "[Public]"@,
        prompt_text(Mode::Channel(name)) == "["@ + name + "]"@,
        prompt_text(Mode::PrivateDM { nickname: name, peer_id }) == "[DM: "@ + name + "]"@,
        mode_text(Mode::Public) == "Public broadcast mode - messages visible to all"@,
        mode_text(Mode::Channel(name)) == "Channel "@ + name
            + " - messages visible to channel members"@,
        mode_text(Mode::PrivateDM { nickname: name, peer_id }) == "Private chat with "@ + name
            + " - end-to-end encrypted"@,
{
}

/// A number switches to the conversation that the lists show under it: the public one, the channel or
/// the direct conversation with its peer. A number that no conversation has changes nothing, and
/// no number changes the lists.
pub proof fn numbers_switch_to_what_they_show(chat: Chat, n: int, i: int)
    ensures
        switched(chat, 1).mode == Mode::Public,
        0 <= i < chat.channels.len() ==> switched(chat, 2 + i).mode == Mode::Channel(
            chat.channels[i],
        ),
        0 <= i < chat.dm_names.len() ==> switched(chat, 2 + chat.channels.len() + i).mode == (
        Mode::PrivateDM { nickname: chat.dm_names[i], peer_id: chat.dms[chat.dm_names[i]] }),
        n < 1 || n > 1 + chat.channels.len() + chat.dm_names.len() ==> switched(chat, n) == chat,
        switched(chat, n).channels == chat.channels,
        switched(chat, n).dm_names == chat.dm_names,
        switched(chat, n).dms == chat.dms,
        switched(chat, n).last_private_sender == chat.last_private_sender,
{
}

/// A channel that is switched to is the current conversation and has a number that leads back to it;
/// so has a direct conversation that is entered, and it leads to the peer that was entered.
pub proof fn what_was_entered_can_be_returned_to(
    chat: Chat,
    channel: Seq<char>,
    nickname: Seq<char>,
    peer_id: Seq<char>,
)
    ensures
        in_channel(chat, channel).mode == Mode::Channel(channel),
        exists|n: int| #[trigger]
            conversation(in_channel(chat, channel), n) == Mode::Channel(channel) && 1 <= n
                <= conversations(in_channel(chat, channel)),
        in_channel(chat, channel).dm_names == chat.dm_names,
        in_channel(chat, channel).dms == chat.dms,
        in_channel(chat, channel).last_private_sender == chat.last_private_sender,
        in_dm(chat, nickname, peer_id).mode == (Mode::PrivateDM { nickname, peer_id }),
        exists|n: int| #[trigger]
            conversation(in_dm(chat, nickname, peer_id), n) == (Mode::PrivateDM {
                nickname,
                peer_id,
            }) && 1 <= n <= conversations(in_dm(chat, nickname, peer_id)),
        in_dm(chat, nickname, peer_id).channels == chat.channels,
        in_dm(chat, nickname, peer_id).last_private_sender == chat.last_private_sender,
{
    let there = in_channel(chat, channel);
    let i = if chat.channels.contains(channel) {
        choose|i: int| 0 <= i < chat.channels.len() && chat.channels[i] == channel
    } else {
        chat.channels.len() as int
    };
    assert(there.channels[i] == channel);
    assert(conversation(there, i + 2) == Mode::Channel(channel));
    let entered = in_dm(chat, nickname, peer_id);
    let j = if chat.dm_names.contains(nickname) {
        choose|j: int| 0 <= j < chat.dm_names.len() && chat.dm_names[j] == nickname
    } else {
        chat.dm_names.len() as int
    };
    assert(entered.dm_names[j] == nickname);
    assert(conversation(entered, 2 + chat.channels.len() + j) == (Mode::PrivateDM {
        nickname,
        peer_id,
    }));
}

/// The lists can be drawn where every channel, and every nickname behind `DM: `, fits into its column.
pub proof fn names_fit_by_their_bytes(chat: Chat, width: int)
    ensures
        names_fit(chat, width) <==> (forall|i: int|
            0 <= i < chat.channels.len() ==> encode_utf8(#[trigger] chat.channels[i]).len()
                <= width) && (forall|i: int|
            0 <= i < chat.dm_names.len() ==> encode_utf8("DM: "@ + #[trigger] chat.dm_names[i]).len()
                <= width),
{
}

} // verus!
