//! Messages as the terminal shows them.

use vstd::prelude::*;

use crate::terminal_ux::token::{decode_cashu_token, decoded};
use crate::text::{has_prefix, pad_two, same_text, starts_with, text_or, two_digits};

verus! {

/// A time of day, to the minute.
#[derive(Debug, Clone, Copy)]
pub struct TimeOfDay {
    hour: u8,
    minute: u8,
}

impl TimeOfDay {
    #[verifier::type_invariant]
    closed spec fn in_range(self) -> bool {
        self.hour < 24 && self.minute < 60
    }

    /// The hour.
    pub closed spec fn hour(self) -> u8 {
        self.hour
    }

    /// The minute.
    pub closed spec fn minute(self) -> u8 {
        self.minute
    }

    /// A time of day, if there is one with that hour and minute.
    pub fn new(hour: u8, minute: u8) -> (r: Option<Self>)
        ensures
            match r {
                Some(t) => hour < 24 && minute < 60 && t.hour() == hour && t.minute() == minute,
                None => hour >= 24 || minute >= 60,
            },
    {
        if hour < 24 && minute < 60 {
            Some(TimeOfDay { hour, minute })
        } else {
            None
        }
    }

    /// Hour and minute, in two digits each.
    pub fn format(&self) -> (r: String)
        ensures
            r@ == clock_text(*self),
    {
        proof {
            use_type_invariant(self);
        }
        let mut text: String = pad_two(self.hour);
        text.append(":");
        text.append(pad_two(self.minute).as_str());
        text
    }
}

/// Hour and minute, in two digits each.
pub open spec fn clock_text(time: TimeOfDay) -> Seq<char> {
    two_digits(time.hour() as nat) + ":"@ + two_digits(time.minute() as nat)
}

/// An optional piece of a message as an optional text.
pub open spec fn piece_view(s: Option<&str>) -> Option<Seq<char>> {
    match s {
        Some(text) => Some(text@),
        None => None,
    }
}

/// A private message: orange, brighter where it is ours.
pub open spec fn private_line(
    time: Seq<char>,
    sender: Seq<char>,
    shown: Seq<char>,
    recipient: Option<Seq<char>>,
    mine: bool,
) -> Seq<char> {
    if mine {
        "\x1b[2;38;5;208m["@ + time + "|DM]\x1b[0m \x1b[38;5;214m<you → "@ + text_or(
            recipient,
            "???"@,
        ) + ">\x1b[0m "@ + shown
    } else {
        "\x1b[2;38;5;208m["@ + time + "|DM]\x1b[0m \x1b[38;5;208m<"@ + sender + " → you>\x1b[0m "@
            + shown
    }
}

/// A channel message: blue, lighter where it is ours.
pub open spec fn channel_line(
    time: Seq<char>,
    sender: Seq<char>,
    shown: Seq<char>,
    channel: Option<Seq<char>>,
    mine: bool,
) -> Seq<char> {
    "\x1b[2;34m["@ + time + "|"@ + text_or(channel, "Ch"@) + "]\x1b[0m "@ + (if mine {
        "\x1b[38;5;117m<"@
    } else {
        "\x1b[34m<"@
    }) + sender + " @ "@ + text_or(channel, "???"@) + ">\x1b[0m "@ + shown
}

/// A public message: green, lighter where it is ours. Only our own tokens are shown decoded.
pub open spec fn public_line(
    time: Seq<char>,
    sender: Seq<char>,
    shown: Seq<char>,
    content: Seq<char>,
    mine: bool,
) -> Seq<char> {
    "\x1b[2;32m["@ + time + "]\x1b[0m "@ + (if mine {
        "\x1b[38;5;120m<"@
    } else {
        "\x1b[32m<"@
    }) + sender + ">\x1b[0m "@ + (if mine {
        shown
    } else {
        content
    })
}

/// The line for a message whose content is shown as `shown`.
pub open spec fn message_line(
    time: Seq<char>,
    sender: Seq<char>,
    content: Seq<char>,
    shown: Seq<char>,
    is_private: bool,
    is_channel: bool,
    channel_name: Option<Seq<char>>,
    recipient: Option<Seq<char>>,
    my_nickname: Seq<char>,
) -> Seq<char> {
    let mine = sender == my_nickname;
    if is_private {
        private_line(time, sender, shown, recipient, mine)
    } else if is_channel {
        channel_line(time, sender, shown, channel_name, mine)
    } else {
        public_line(time, sender, shown, content, mine)
    }
}

/// A message's content as it is shown: a token is decoded.
pub open spec fn shown_content(content: Seq<char>) -> Seq<char> {
    if has_prefix(content, "cashu"@) {
        text_or(decoded(content), content)
    } else {
        content
    }
}

/// The line for a message whose content is shown as `shown`.
pub fn render_message(
    time: &str,
    sender: &str,
    content: &str,
    shown: &str,
    is_private: bool,
    is_channel: bool,
    channel_name: Option<&str>,
    recipient: Option<&str>,
    my_nickname: &str,
) -> (r: String)
    ensures
        r@ == message_line(
            time@,
            sender@,
            content@,
            shown@,
            is_private,
            is_channel,
            piece_view(channel_name),
            piece_view(recipient),
            my_nickname@,
        ),
{
    let mine: bool = same_text(sender, my_nickname);
    let mut line: String = String::new();
    if is_private {
        line = "\x1b[2;38;5;208m[".to_string();
        line.append(time);
        if mine {
            line.append("|DM]\x1b[0m \x1b[38;5;214m<you → ");
            match recipient {
                Some(name) => line.append(name),
                None => line.append("???"),
            }
            line.append(">\x1b[0m ");
        } else {
            line.append("|DM]\x1b[0m \x1b[38;5;208m<");
            line.append(sender);
            line.append(" → you>\x1b[0m ");
        }
        line.append(shown);
    } else if is_channel {
        line = "\x1b[2;34m[".to_string();
        line.append(time);
        line.append("|");
        match channel_name {
            Some(name) => line.append(name),
            None => line.append("Ch"),
        }
        line.append("]\x1b[0m ");
        if mine {
            line.append("\x1b[38;5;117m<");
        } else {
            line.append("\x1b[34m<");
        }
        line.append(sender);
        line.append(" @ ");
        match channel_name {
            Some(name) => line.append(name),
            None => line.append("???"),
        }
        line.append(">\x1b[0m ");
        line.append(shown);
    } else {
        line = "\x1b[2;32m[".to_string();
        line.append(time);
        line.append("]\x1b[0m ");
        if mine {
            line.append("\x1b[38;5;120m<");
        } else {
            line.append("\x1b[32m<");
        }
        line.append(sender);
        line.append(">\x1b[0m ");
        if mine {
            line.append(shown);
        } else {
            line.append(content);
        }
    }
    line
}

/// The line for a message.
pub fn format_message_display(
    timestamp: TimeOfDay,
    sender: &str,
    content: &str,
    is_private: bool,
    is_channel: bool,
    channel_name: Option<&str>,
    recipient: Option<&str>,
    my_nickname: &str,
) -> (r: String)
    ensures
        r@ == message_line(
            clock_text(timestamp),
            sender@,
            content@,
            shown_content(content@),
            is_private,
            is_channel,
            piece_view(channel_name),
            piece_view(recipient),
            my_nickname@,
        ),
{
    let shown: String = if starts_with(content, "cashu") {
        match decode_cashu_token(content) {
            Some(text) => text,
            None => content.to_string(),
        }
    } else {
        content.to_string()
    };
    let time: String = timestamp.format();
    render_message(
        time.as_str(),
        sender,
        content,
        shown.as_str(),
        is_private,
        is_channel,
        channel_name,
        recipient,
        my_nickname,
    )
}

} // verus!
