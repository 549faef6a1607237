//! The conversations that are open and the one that is current.

use vstd::prelude::*;
use vstd::utf8::encode_utf8;

use crate::table::{keys_with, Table};
use crate::text::{
    blank, concat_rows, decimal, decimal_text, join3, same_text, spaces, texts,
};

verus! {

/// Where a message that the user types goes.
#[derive(Debug, Clone)]
pub enum ChatMode {
    Public,
    Channel(String),
    PrivateDM { nickname: String, peer_id: String },
}

/// A chat mode as a mathematical value.
pub enum Mode {
    Public,
    Channel(Seq<char>),
    PrivateDM { nickname: Seq<char>, peer_id: Seq<char> },
}

impl View for ChatMode {
    type V = Mode;

    open spec fn view(&self) -> Mode {
        match self {
            ChatMode::Public => Mode::Public,
            ChatMode::Channel(name) => Mode::Channel(name@),
            ChatMode::PrivateDM { nickname, peer_id } => Mode::PrivateDM {
                nickname: nickname@,
                peer_id: peer_id@,
            },
        }
    }
}

/// The open conversations and the current one.
#[derive(Debug, Clone)]
pub struct ChatContext {
    pub current_mode: ChatMode,
    pub active_channels: Vec<String>,
    /// From nickname to peer id.
    pub active_dms: Table<String>,
    /// Peer id and nickname.
    pub last_private_sender: Option<(String, String)>,
}

/// The open conversations and the current one, as a mathematical value.
pub struct Chat {
    pub mode: Mode,
    pub channels: Seq<Seq<char>>,
    /// The nicknames of the direct conversations, in the order in which they are listed.
    pub dm_names: Seq<Seq<char>>,
    /// From nickname to peer id.
    pub dms: Map<Seq<char>, Seq<char>>,
    /// Peer id and nickname.
    pub last_private_sender: Option<(Seq<char>, Seq<char>)>,
}

/// A table of strings as a map of texts.
pub open spec fn text_map(table: Map<Seq<char>, String>) -> Map<Seq<char>, Seq<char>> {
    table.map_values(|s: String| s@)
}

impl View for ChatContext {
    type V = Chat;

    open spec fn view(&self) -> Chat {
        Chat {
            mode: self.current_mode@,
            channels: texts(self.active_channels@),
            dm_names: self.active_dms.keys(),
            dms: text_map(self.active_dms.map()),
            last_private_sender: match self.last_private_sender {
                Some((peer_id, nickname)) => Some((peer_id@, nickname@)),
                None => None,
            },
        }
    }
}

/// The number of conversations: the public one, the channels and the direct ones.
pub open spec fn conversations(chat: Chat) -> nat {
    1 + chat.channels.len() + chat.dm_names.len()
}

/// The conversation with the number `n`: 1 is the public one, then come the channels, then the
/// direct conversations.
pub open spec fn conversation(chat: Chat, n: int) -> Mode
    recommends
        1 <= n <= conversations(chat),
{
    if n == 1 {
        Mode::Public
    } else if n <= 1 + chat.channels.len() {
        Mode::Channel(chat.channels[n - 2])
    } else {
        let nickname = chat.dm_names[n - 2 - chat.channels.len()];
        Mode::PrivateDM { nickname, peer_id: chat.dms[nickname] }
    }
}

/// What the status line calls a conversation.
pub open spec fn status_label(mode: Mode) -> Seq<char> {
    match mode {
        Mode::Public => "Public"@,
        Mode::Channel(name) => name,
        Mode::PrivateDM { nickname, .. } => "DM:"@ + nickname,
    }
}

/// The entry of the status line for the conversation number `n`.
pub open spec fn status_entry(chat: Chat, n: int) -> Seq<char> {
    "["@ + decimal_text(n as nat) + "] "@ + status_label(conversation(chat, n))
}

/// The status line: every conversation with its number.
pub open spec fn status_line(chat: Chat) -> Seq<char> {
    "Active:"@ + concat_rows(
        conversations(chat),
        |i: int| " "@ + status_entry(chat, i + 1),
    )
}

/// What a list calls a direct conversation.
pub open spec fn dm_label(nickname: Seq<char>) -> Seq<char> {
    "DM: "@ + nickname
}

/// Every name fits into a column that is `width` bytes wide.
pub open spec fn names_fit(chat: Chat, width: int) -> bool {
    &&& forall|i: int|
        0 <= i < chat.channels.len() ==> encode_utf8(#[trigger] chat.channels[i]).len() <= width
    &&& forall|i: int|
        0 <= i < chat.dm_names.len() ==> encode_utf8(dm_label(#[trigger] chat.dm_names[i])).len()
            <= width
}

/// `label`, padded with spaces to a width in bytes.
pub open spec fn padded(label: Seq<char>, width: int) -> Seq<char> {
    label + blank((width - encode_utf8(label).len()) as nat)
}

/// One line of the numbered list.
pub open spec fn numbered_row(n: int, label: Seq<char>) -> Seq<char> {
    "│  "@ + decimal_text(n as nat) + ". "@ + padded(label, 20) + "│\n"@
}

/// The numbered list of conversations.
pub open spec fn numbered_list(chat: Chat) -> Seq<char> {
    "╭─── Select Conversation ───╮\n│  1. Public                │\n"@ + concat_rows(
        chat.channels.len(),
        |i: int| numbered_row(i + 2, chat.channels[i]),
    ) + concat_rows(
        chat.dm_names.len(),
        |i: int| numbered_row(i + 2 + chat.channels.len(), dm_label(chat.dm_names[i])),
    ) + "╰───────────────────────────╯"@
}

/// The mark of the current conversation.
pub open spec fn mark(current: bool) -> Seq<char> {
    if current {
        "→"@
    } else {
        " "@
    }
}

/// One line of the list that marks the current conversation.
pub open spec fn marked_row(current: bool, n: int, label: Seq<char>) -> Seq<char> {
    "│ "@ + mark(current) + " ["@ + decimal_text(n as nat) + "] "@ + padded(label, 18) + "│\n"@
}

/// Whether a direct conversation is the current one.
pub open spec fn dm_is_current(mode: Mode, nick: Seq<char>) -> bool {
    match mode {
        Mode::PrivateDM { nickname, .. } => nickname == nick,
        _ => false,
    }
}

/// The list of conversations, with the current one marked.
pub open spec fn marked_list(chat: Chat) -> Seq<char> {
    "\n╭─── Active Conversations ───╮\n│                            │\n│ "@ + mark(
        chat.mode is Public,
    ) + " [1] Public              │\n"@ + concat_rows(
        chat.channels.len(),
        |i: int| marked_row(chat.mode == Mode::Channel(chat.channels[i]), i + 2, chat.channels[i]),
    ) + concat_rows(
        chat.dm_names.len(),
        |i: int|
            marked_row(
                dm_is_current(chat.mode, chat.dm_names[i]),
                i + 2 + chat.channels.len(),
                dm_label(chat.dm_names[i]),
            ),
    ) + "│                            │\n╰────────────────────────────╯\n"@
}

/// What the terminal says when a conversation was switched to.
pub open spec fn switch_notice(mode: Mode) -> Seq<char> {
    "\x1b[90m─────────────────────────\x1b[0m\n\x1b[90m» Switched to "@ + (match mode {
        Mode::Public => "Public chat. Just type to send messages."@,
        Mode::Channel(name) => "channel "@ + name,
        Mode::PrivateDM { nickname, .. } => "DM with "@ + nickname
            + ". Just type to send messages."@,
    }) + "\x1b[0m\n"@
}

/// The channels after `channel` was added: a known one keeps its place.
pub open spec fn with_channel(chat: Chat, channel: Seq<char>) -> Chat {
    Chat { channels: keys_with(chat.channels, channel), ..chat }
}

/// The channels other than `channel`.
pub open spec fn other_channels(channels: Seq<Seq<char>>, channel: Seq<char>) -> Seq<Seq<char>> {
    channels.filter(|c: Seq<char>| c != channel)
}

/// The channels after `channel` was taken off the list.
pub open spec fn without_channel(chat: Chat, channel: Seq<char>) -> Chat {
    Chat { channels: other_channels(chat.channels, channel), ..chat }
}

/// The conversations after the direct one with `nickname` was added.
pub open spec fn with_dm(chat: Chat, nickname: Seq<char>, peer_id: Seq<char>) -> Chat {
    Chat {
        dm_names: keys_with(chat.dm_names, nickname),
        dms: chat.dms.insert(nickname, peer_id),
        ..chat
    }
}

/// The prompt of a conversation.
pub open spec fn prompt_text(mode: Mode) -> Seq<char> {
    match mode {
        Mode::Public => "[Public]"@,
        Mode::Channel(name) => "["@ + name + "]"@,
        Mode::PrivateDM { nickname, .. } => "[DM: "@ + nickname + "]"@,
    }
}

/// What a conversation is.
pub open spec fn mode_text(mode: Mode) -> Seq<char> {
    match mode {
        Mode::Public => "Public broadcast mode - messages visible to all"@,
        Mode::Channel(name) => "Channel "@ + name + " - messages visible to channel members"@,
        Mode::PrivateDM { nickname, .. } => "Private chat with "@ + nickname
            + " - end-to-end encrypted"@,
    }
}

/// The conversations after the one with the number `n` was switched to, if there is one.
pub open spec fn switched(chat: Chat, n: int) -> Chat {
    if 1 <= n <= conversations(chat) {
        Chat { mode: conversation(chat, n), ..chat }
    } else {
        chat
    }
}

/// The conversations after a channel was switched to.
pub open spec fn in_channel(chat: Chat, channel: Seq<char>) -> Chat {
    Chat { mode: Mode::Channel(channel), ..with_channel(chat, channel) }
}

/// The conversations after a direct one was entered.
pub open spec fn in_dm(chat: Chat, nickname: Seq<char>, peer_id: Seq<char>) -> Chat {
    Chat { mode: Mode::PrivateDM { nickname, peer_id }, ..with_dm(chat, nickname, peer_id) }
}

/// What a list calls a direct conversation.
fn dm_text(nickname: &str) -> (r: String)
    ensures
        r@ == dm_label(nickname@),
{
    let mut text: String = "DM: ".to_string();
    text.append(nickname);
    text
}

/// The mark of the current conversation.
fn mark_text(current: bool) -> (r: &'static str)
    ensures
        r@ == mark(current),
{
    if current {
        "→"
    } else {
        " "
    }
}

/// Appends `label`, padded with spaces to a width in bytes.
fn append_padded(list: &mut String, label: &str, width: usize)
    requires
        encode_utf8(label@).len() <= width,
    ensures
        final(list)@ == old(list)@ + padded(label@, width as int),
{
    let ghost start = list@;
    let fill: String = spaces(width - label.len());
    list.append(label);
    list.append(fill.as_str());
    assert(list@ =~= start + padded(label@, width as int));
}

/// Appends a line of the numbered list.
fn append_numbered_row(list: &mut String, n: u128, label: &str)
    requires
        encode_utf8(label@).len() <= 20,
    ensures
        final(list)@ == old(list)@ + numbered_row(n as int, label@),
{
    let ghost start = list@;
    list.append("│  ");
    list.append(decimal(n).as_str());
    list.append(". ");
    append_padded(list, label, 20);
    list.append("│\n");
    assert(list@ =~= start + numbered_row(n as int, label@));
}

/// Appends a line of the list that marks the current conversation.
fn append_marked_row(list: &mut String, current: bool, n: u128, label: &str)
    requires
        encode_utf8(label@).len() <= 18,
    ensures
        final(list)@ == old(list)@ + marked_row(current, n as int, label@),
{
    let ghost start = list@;
    list.append("│ ");
    list.append(mark_text(current));
    list.append(" [");
    list.append(decimal(n).as_str());
    list.append("] ");
    append_padded(list, label, 18);
    list.append("│\n");
    assert(list@ =~= start + marked_row(current, n as int, label@));
}

impl ChatMode {
    /// The name of the channel, in a channel.
    pub fn get_channel(&self) -> (r: Option<&str>)
        ensures
            match self@ {
                Mode::Channel(name) => r matches Some(s) && s@ == name,
                _ => r is None,
            },
    {
        match self {
            ChatMode::Channel(name) => Some(name.as_str()),
            _ => None,
        }
    }

    /// Nickname and peer id, in a direct conversation.
    pub fn get_dm_target(&self) -> (r: Option<(&str, &str)>)
        ensures
            match self@ {
                Mode::PrivateDM { nickname, peer_id } => r matches Some((a, b)) && a@ == nickname
                    && b@ == peer_id,
                _ => r is None,
            },
    {
        match self {
            ChatMode::PrivateDM { nickname, peer_id } => Some((nickname.as_str(), peer_id.as_str())),
            _ => None,
        }
    }

    /// Whether this is a direct conversation.
    pub fn is_private(&self) -> (r: bool)
        ensures
            r == (self@ is PrivateDM),
    {
        match self {
            ChatMode::PrivateDM { .. } => true,
            _ => false,
        }
    }

    /// What the terminal says when this conversation was switched to.
    pub fn switch_notice(&self) -> (r: String)
        ensures
            r@ == switch_notice(self@),
    {
        let what: String = match self {
            ChatMode::Public => "Public chat. Just type to send messages.".to_string(),
            ChatMode::Channel(name) => {
                let mut t: String = "channel ".to_string();
                t.append(name.as_str());
                t
            },
            ChatMode::PrivateDM { nickname, .. } => join3(
                "DM with ",
                nickname.as_str(),
                ". Just type to send messages.",
            ),
        };
        join3(
            "\x1b[90m─────────────────────────\x1b[0m\n\x1b[90m» Switched to ",
            what.as_str(),
            "\x1b[0m\n",
        )
    }
}

impl ChatContext {
    /// No nickname is listed twice.
    pub open spec fn wf(&self) -> bool {
        self.active_dms.wf()
    }

    /// Nothing but the public conversation.
    pub fn new() -> (r: Self)
        ensures
            r.wf(),
            r@ == (Chat {
                mode: Mode::Public,
                channels: Seq::empty(),
                dm_names: Seq::empty(),
                dms: Map::empty(),
                last_private_sender: None,
            }),
    {
        let r = ChatContext {
            current_mode: ChatMode::Public,
            active_channels: Vec::new(),
            active_dms: Table::new(),
            last_private_sender: None,
        };
        assert(r@.channels =~= Seq::<Seq<char>>::empty());
        assert(r@.dms =~= Map::<Seq<char>, Seq<char>>::empty());
        r
    }

    /// The prompt of the current conversation.
    pub fn format_prompt(&self) -> (r: String)
        ensures
            r@ == (match self@.mode {
                Mode::Public => "[Public]"@,
                Mode::Channel(name) => "["@ + name + "]"@,
                Mode::PrivateDM { nickname, .. } => "[DM: "@ + nickname + "]"@,
            }),
            r@ == prompt_text(self@.mode),
    {
        match &self.current_mode {
            ChatMode::Public => "[Public]".to_string(),
            ChatMode::Channel(name) => join3("[", name.as_str(), "]"),
            ChatMode::PrivateDM { nickname, .. } => join3("[DM: ", nickname.as_str(), "]"),
        }
    }

    /// What the current conversation is.
    pub fn get_mode_info(&self) -> (r: String)
        ensures
            r@ == (match self@.mode {
                Mode::Public => "Public broadcast mode - messages visible to all"@,
                Mode::Channel(name) => "Channel "@ + name
                    + " - messages visible to channel members"@,
                Mode::PrivateDM { nickname, .. } => "Private chat with "@ + nickname
                    + " - end-to-end encrypted"@,
            }),
            r@ == mode_text(self@.mode),
    {
        match &self.current_mode {
            ChatMode::Public => "Public broadcast mode - messages visible to all".to_string(),
            ChatMode::Channel(ch) => join3(
                "Channel ",
                ch.as_str(),
                " - messages visible to channel members",
            ),
            ChatMode::PrivateDM { nickname, .. } => join3(
                "Private chat with ",
                nickname.as_str(),
                " - end-to-end encrypted",
            ),
        }
    }

    /// Every conversation with its number, on one line.
    pub fn get_status_line(&self) -> (r: String)
        requires
            self.wf(),
        ensures
            r@ == status_line(self@),
    {
        let ghost chat = self@;
        let ghost row = |i: int| " "@ + status_entry(chat, i + 1);
        let mut line: String = "Active:".to_string();
        line.append(" ");
        line.append("[");
        line.append(decimal(1).as_str());
        line.append("] ");
        line.append("Public");
        proof {
            assert(concat_rows(1, row) =~= row(0)) by {
                reveal_with_fuel(concat_rows, 2);
            }
            assert(line@ =~= "Active:"@ + concat_rows(1, row));
        }
        let mut i: usize = 0;
        while i < self.active_channels.len()
            invariant
                i <= self.active_channels@.len(),
                chat == self@,
                row == (|i: int| " "@ + status_entry(chat, i + 1)),
                line@ == "Active:"@ + concat_rows((1 + i) as nat, row),
            decreases self.active_channels@.len() - i,
        {
            let ghost before = line@;
            line.append(" ");
            line.append("[");
            line.append(decimal(i as u128 + 2).as_str());
            line.append("] ");
            line.append(self.active_channels[i].as_str());
            proof {
                assert(conversation(chat, i + 2) == Mode::Channel(self.active_channels@[i as int]@));
                assert(line@ =~= before + row(i + 1));
                assert(concat_rows((2 + i) as nat, row) =~= concat_rows((1 + i) as nat, row) + row(
                    i + 1,
                ));
            }
            i = i + 1;
        }
        let mut j: usize = 0;
        while j < self.active_dms.len()
            invariant
                j <= chat.dm_names.len(),
                i == chat.channels.len(),
                self.wf(),
                chat == self@,
                row == (|i: int| " "@ + status_entry(chat, i + 1)),
                line@ == "Active:"@ + concat_rows((1 + i + j) as nat, row),
            decreases chat.dm_names.len() - j,
        {
            let ghost before = line@;
            let (nick, _peer_id) = self.active_dms.at(j);
            line.append(" ");
            line.append("[");
            line.append(decimal(j as u128 + i as u128 + 2).as_str());
            line.append("] ");
            line.append("DM:");
            line.append(nick.as_str());
            proof {
                assert(line@ =~= before + row(i + j + 1));
                assert(concat_rows((2 + i + j) as nat, row) =~= concat_rows(
                    (1 + i + j) as nat,
                    row,
                ) + row(i + j + 1));
            }
            j = j + 1;
        }
        line
    }

    /// Switches to the conversation with the number `num`, if there is one, and tells whether there
    /// is.
    pub fn switch_to_number(&mut self, num: usize) -> (r: bool)
        requires
            old(self).wf(),
            num >= 1,
        ensures
            final(self).wf(),
            r == (num <= conversations(old(self)@)),
            final(self)@ == (if r {
                Chat { mode: conversation(old(self)@, num as int), ..old(self)@ }
            } else {
                old(self)@
            }),
            final(self)@ == switched(old(self)@, num as int),
    {
        let ghost chat = self@;
        if num == 1 {
            self.current_mode = ChatMode::Public;
            return true;
        }
        let idx: usize = num - 2;
        if idx < self.active_channels.len() {
            self.current_mode = ChatMode::Channel(self.active_channels[idx].clone());
            assert(self@.mode == conversation(chat, num as int));
            return true;
        }
        let dm_idx: usize = idx - self.active_channels.len();
        if dm_idx < self.active_dms.len() {
            let (nick, peer_id) = self.active_dms.at(dm_idx);
            let nickname: String = nick.clone();
            let peer_id: String = peer_id.clone();
            assert(chat.dms[nickname@] == peer_id@);
            self.current_mode = ChatMode::PrivateDM { nickname, peer_id };
            return true;
        }
        false
    }

    /// Whether a channel is in the list.
    fn has_channel(&self, channel: &str) -> (r: bool)
        ensures
            r == self@.channels.contains(channel@),
    {
        let mut i: usize = 0;
        while i < self.active_channels.len()
            invariant
                i <= self.active_channels@.len(),
                forall|j: int| 0 <= j < i ==> self@.channels[j] != channel@,
            decreases self.active_channels@.len() - i,
        {
            if same_text(self.active_channels[i].as_str(), channel) {
                assert(self@.channels[i as int] == channel@);
                return true;
            }
            i = i + 1;
        }
        false
    }

    /// Adds a channel to the list, unless it is there already.
    pub fn add_channel(&mut self, channel: &str)
        requires
            old(self).wf(),
        ensures
            final(self).wf(),
            final(self)@ == with_channel(old(self)@, channel@),
    {
        let ghost chat = self@;
        if !self.has_channel(channel) {
            self.active_channels.push(channel.to_string());
            assert(self@.channels =~= chat.channels.push(channel@));
        }
    }

    /// Adds a direct conversation to the list.
    pub fn add_dm(&mut self, nickname: &str, peer_id: &str)
        requires
            old(self).wf(),
        ensures
            final(self).wf(),
            final(self)@ == with_dm(old(self)@, nickname@, peer_id@),
    {
        let ghost chat = self@;
        self.active_dms.insert(nickname, peer_id.to_string());
        assert(self@.dms =~= chat.dms.insert(nickname@, peer_id@));
    }

    /// Adds a direct conversation and switches to it.
    pub fn enter_dm_mode(&mut self, nickname: &str, peer_id: &str)
        requires
            old(self).wf(),
        ensures
            final(self).wf(),
            final(self)@ == (Chat {
                mode: Mode::PrivateDM { nickname: nickname@, peer_id: peer_id@ },
                ..with_dm(old(self)@, nickname@, peer_id@)
            }),
            final(self)@ == in_dm(old(self)@, nickname@, peer_id@),
    {
        self.add_dm(nickname, peer_id);
        self.current_mode = ChatMode::PrivateDM {
            nickname: nickname.to_string(),
            peer_id: peer_id.to_string(),
        };
    }

    /// What the terminal says when a direct conversation was entered.
    pub fn entered_dm_notice(nickname: &str) -> (r: String)
        ensures
            r@ == "\x1b[90m─────────────────────────\x1b[0m\n\x1b[90m» Entered DM mode with "@
                + nickname@ + ". Just type to send messages.\x1b[0m\n"@,
    {
        join3(
            "\x1b[90m─────────────────────────\x1b[0m\n\x1b[90m» Entered DM mode with ",
            nickname,
            ". Just type to send messages.\x1b[0m\n",
        )
    }

    /// Adds a channel, unless it is there already, and switches to it.
    pub fn switch_to_channel(&mut self, channel: &str)
        requires
            old(self).wf(),
        ensures
            final(self).wf(),
            final(self)@ == (Chat {
                mode: Mode::Channel(channel@),
                ..with_channel(old(self)@, channel@)
            }),
            final(self)@ == in_channel(old(self)@, channel@),
    {
        self.switch_to_channel_silent(channel);
    }

    /// Adds a channel, unless it is there already, and switches to it; nothing is to be said of it.
    pub fn switch_to_channel_silent(&mut self, channel: &str)
        requires
            old(self).wf(),
        ensures
            final(self).wf(),
            final(self)@ == (Chat {
                mode: Mode::Channel(channel@),
                ..with_channel(old(self)@, channel@)
            }),
            final(self)@ == in_channel(old(self)@, channel@),
    {
        self.add_channel(channel);
        self.current_mode = ChatMode::Channel(channel.to_string());
    }

    /// Switches to the public conversation.
    pub fn switch_to_public(&mut self)
        requires
            old(self).wf(),
        ensures
            final(self).wf(),
            final(self)@ == (Chat { mode: Mode::Public, ..old(self)@ }),
    {
        self.current_mode = ChatMode::Public;
    }

    /// Takes a channel off the list. The current conversation stays what it is.
    pub fn remove_channel(&mut self, channel: &str)
        requires
            old(self).wf(),
        ensures
            final(self).wf(),
            final(self)@ == without_channel(old(self)@, channel@),
    {
        let ghost chat = self@;
        let ghost other = |c: Seq<char>| c != channel@;
        let mut kept: Vec<String> = Vec::new();
        let mut i: usize = 0;
        assert(chat.channels.take(0).filter(other) =~= Seq::<Seq<char>>::empty()) by {
            reveal(Seq::filter);
        }
        assert(texts(kept@) =~= Seq::<Seq<char>>::empty());
        while i < self.active_channels.len()
            invariant
                i <= self.active_channels@.len(),
                chat == self@,
                other == (|c: Seq<char>| c != channel@),
                texts(kept@) == chat.channels.take(i as int).filter(other),
            decreases self.active_channels@.len() - i,
        {
            let ghost before = kept@;
            let name: String = self.active_channels[i].clone();
            proof {
                reveal(Seq::filter);
                assert(chat.channels.take(i + 1).drop_last() =~= chat.channels.take(i as int));
                assert(chat.channels.take(i + 1).last() == name@);
            }
            if !same_text(name.as_str(), channel) {
                kept.push(name);
                assert(texts(kept@) =~= texts(before).push(name@));
            }
            i = i + 1;
        }
        assert(chat.channels.take(i as int) =~= chat.channels);
        self.active_channels = kept;
    }

    /// Whether every name fits into a column that is `width` bytes wide.
    pub fn fits(&self, width: usize) -> (r: bool)
        requires
            self.wf(),
        ensures
            r == names_fit(self@, width as int),
    {
        let ghost chat = self@;
        let mut i: usize = 0;
        while i < self.active_channels.len()
            invariant
                i <= self.active_channels@.len(),
                chat == self@,
                forall|j: int|
                    0 <= j < i ==> encode_utf8(#[trigger] chat.channels[j]).len() <= width,
            decreases self.active_channels@.len() - i,
        {
            let channel: &str = self.active_channels[i].as_str();
            assert(chat.channels[i as int] == channel@);
            if channel.as_bytes().len() > width {
                return false;
            }
            i = i + 1;
        }
        let mut j: usize = 0;
        while j < self.active_dms.len()
            invariant
                j <= chat.dm_names.len(),
                self.wf(),
                chat == self@,
                forall|k: int|
                    0 <= k < j ==> encode_utf8(dm_label(#[trigger] chat.dm_names[k])).len()
                        <= width,
            decreases chat.dm_names.len() - j,
        {
            let (nick, _peer_id) = self.active_dms.at(j);
            let label: String = dm_text(nick.as_str());
            assert(chat.dm_names[j as int] == nick@);
            if label.as_str().as_bytes().len() > width {
                return false;
            }
            j = j + 1;
        }
        true
    }

    /// The list of conversations, with the current one marked. A name that is wider than its
    /// column has no place in it.
    pub fn show_conversation_list(&self) -> (r: String)
        requires
            self.wf(),
            names_fit(self@, 18),
        ensures
            r@ == marked_list(self@),
    {
        let ghost chat = self@;
        let ghost channel_row = |i: int|
            marked_row(
                chat.mode == Mode::Channel(chat.channels[i]),
                i + 2,
                chat.channels[i],
            );
        let ghost dm_row = |i: int|
            marked_row(
                dm_is_current(chat.mode, chat.dm_names[i]),
                i + 2 + chat.channels.len(),
                dm_label(chat.dm_names[i]),
            );
        let is_current: bool = matches!(self.current_mode, ChatMode::Public);
        let mut list: String = "\n╭─── Active Conversations ───╮\n│                            │\n│ ".to_string();
        list.append(mark_text(is_current));
        list.append(" [1] Public              │\n");
        let ghost head = list@;
        let mut i: usize = 0;
        assert(list@ =~= head + concat_rows(0, channel_row));
        while i < self.active_channels.len()
            invariant
                i <= self.active_channels@.len(),
                chat == self@,
                names_fit(chat, 18),
                channel_row == (|i: int|
                    marked_row(
                        chat.mode == Mode::Channel(chat.channels[i]),
                        i + 2,
                        chat.channels[i],
                    )),
                list@ == head + concat_rows(i as nat, channel_row),
            decreases self.active_channels@.len() - i,
        {
            let ghost before = list@;
            let channel: &String = &self.active_channels[i];
            assert(chat.channels[i as int] == channel@);
            let is_current: bool = match &self.current_mode {
                ChatMode::Channel(name) => same_text(name.as_str(), channel.as_str()),
                _ => false,
            };
            assert(is_current == (chat.mode == Mode::Channel(channel@)));
            append_marked_row(&mut list, is_current, i as u128 + 2, channel.as_str());
            proof {
                assert(list@ =~= before + channel_row(i as int));
                assert(concat_rows((i + 1) as nat, channel_row) =~= concat_rows(
                    i as nat,
                    channel_row,
                ) + channel_row(i as int));
            }
            i = i + 1;
        }
        let ghost head = list@;
        let mut j: usize = 0;
        assert(list@ =~= head + concat_rows(0, dm_row));
        while j < self.active_dms.len()
            invariant
                j <= chat.dm_names.len(),
                i == chat.channels.len(),
                self.wf(),
                chat == self@,
                names_fit(chat, 18),
                dm_row == (|i: int|
                    marked_row(
                        dm_is_current(chat.mode, chat.dm_names[i]),
                        i + 2 + chat.channels.len(),
                        dm_label(chat.dm_names[i]),
                    )),
                list@ == head + concat_rows(j as nat, dm_row),
            decreases chat.dm_names.len() - j,
        {
            let ghost before = list@;
            let (nick, _peer_id) = self.active_dms.at(j);
            assert(chat.dm_names[j as int] == nick@);
            let is_current: bool = match &self.current_mode {
                ChatMode::PrivateDM { nickname, .. } => same_text(
                    nickname.as_str(),
                    nick.as_str(),
                ),
                _ => false,
            };
            let label: String = dm_text(nick.as_str());
            append_marked_row(
                &mut list,
                is_current,
                j as u128 + i as u128 + 2,
                label.as_str(),
            );
            proof {
                assert(list@ =~= before + dm_row(j as int));
                assert(concat_rows((j + 1) as nat, dm_row) =~= concat_rows(j as nat, dm_row)
                    + dm_row(j as int));
            }
            j = j + 1;
        }
        list.append("│                            │\n╰────────────────────────────╯\n");
        list
    }

    /// The numbered list of conversations. A name that is wider than its column has no place in
    /// it.
    pub fn get_conversation_list_with_numbers(&self) -> (r: String)
        requires
            self.wf(),
            names_fit(self@, 20),
        ensures
            r@ == numbered_list(self@),
    {
        let ghost chat = self@;
        let ghost channel_row = |i: int| numbered_row(i + 2, chat.channels[i]);
        let ghost dm_row = |i: int|
            numbered_row(i + 2 + chat.channels.len(), dm_label(chat.dm_names[i]));
        let mut list: String = "╭─── Select Conversation ───╮\n│  1. Public                │\n".to_string();
        let ghost head = list@;
        let mut i: usize = 0;
        assert(list@ =~= head + concat_rows(0, channel_row));
        while i < self.active_channels.len()
            invariant
                i <= self.active_channels@.len(),
                chat == self@,
                names_fit(chat, 20),
                channel_row == (|i: int| numbered_row(i + 2, chat.channels[i])),
                list@ == head + concat_rows(i as nat, channel_row),
            decreases self.active_channels@.len() - i,
        {
            let ghost before = list@;
            let channel: &String = &self.active_channels[i];
            assert(chat.channels[i as int] == channel@);
            append_numbered_row(&mut list, i as u128 + 2, channel.as_str());
            proof {
                assert(list@ =~= before + channel_row(i as int));
                assert(concat_rows((i + 1) as nat, channel_row) =~= concat_rows(
                    i as nat,
                    channel_row,
                ) + channel_row(i as int));
            }
            i = i + 1;
        }
        let ghost head = list@;
        let mut j: usize = 0;
        assert(list@ =~= head + concat_rows(0, dm_row));
        while j < self.active_dms.len()
            invariant
                j <= chat.dm_names.len(),
                i == chat.channels.len(),
                self.wf(),
                chat == self@,
                names_fit(chat, 20),
                dm_row == (|i: int|
                    numbered_row(i + 2 + chat.channels.len(), dm_label(chat.dm_names[i]))),
                list@ == head + concat_rows(j as nat, dm_row),
            decreases chat.dm_names.len() - j,
        {
            let ghost before = list@;
            let (nick, _peer_id) = self.active_dms.at(j);
            assert(chat.dm_names[j as int] == nick@);
            let label: String = dm_text(nick.as_str());
            append_numbered_row(&mut list, j as u128 + i as u128 + 2, label.as_str());
            proof {
                assert(list@ =~= before + dm_row(j as int));
                assert(concat_rows((j + 1) as nat, dm_row) =~= concat_rows(j as nat, dm_row)
                    + dm_row(j as int));
            }
            j = j + 1;
        }
        list.append("╰───────────────────────────╯");
        list
    }
}

/// Adding a channel keeps the channels distinct, and so does taking one off the list.
pub proof fn channels_stay_distinct(chat: Chat, channel: Seq<char>)
    requires
        chat.channels.no_duplicates(),
    ensures
        with_channel(chat, channel).channels.no_duplicates(),
        without_channel(chat, channel).channels.no_duplicates(),
{
    lemma_without(chat.channels, channel);
}

/// A channel that was added is listed, adding it again changes nothing, and once it is taken off it
/// is listed no more. All other channels stay where they are.
pub proof fn adding_and_removing_channels(chat: Chat, channel: Seq<char>, other: Seq<char>)
    ensures
        with_channel(chat, channel).channels.contains(channel),
        with_channel(with_channel(chat, channel), channel) == with_channel(chat, channel),
        !without_channel(chat, channel).channels.contains(channel),
        other != channel ==> with_channel(chat, channel).channels.contains(other)
            == chat.channels.contains(other),
        other != channel ==> without_channel(chat, channel).channels.contains(other)
            == chat.channels.contains(other),
{
    let added = chat.channels.push(channel);
    assert(added[added.len() - 1] == channel);
    if chat.channels.contains(other) {
        let i = choose|i: int| 0 <= i < chat.channels.len() && chat.channels[i] == other;
        assert(added[i] == other);
    }
    lemma_without(chat.channels, channel);
}

proof fn lemma_without(channels: Seq<Seq<char>>, channel: Seq<char>)
    ensures
        !other_channels(channels, channel).contains(channel),
        forall|c: Seq<char>|
            c != channel ==> (other_channels(channels, channel).contains(c)
                == #[trigger] channels.contains(c)),
        channels.no_duplicates() ==> other_channels(channels, channel).no_duplicates(),
    decreases channels.len(),
{
    reveal(Seq::filter);
    if channels.len() > 0 {
        let head = channels.drop_last();
        let last = channels.last();
        let kept = other_channels(head, channel);
        lemma_without(head, channel);
        assert(channels =~= head.push(last));
        assert forall|c: Seq<char>| #[trigger] channels.contains(c) == (head.contains(c) || last
            == c) by {
            if head.contains(c) {
                let i = choose|i: int| 0 <= i < head.len() && head[i] == c;
                assert(channels[i] == c);
            }
            if last == c {
                assert(channels[channels.len() - 1] == c);
            }
        }
        if last != channel {
            assert(other_channels(channels, channel) =~= kept.push(last));
            assert forall|c: Seq<char>| #[trigger] kept.push(last).contains(c) == (kept.contains(c)
                || last == c) by {
                if kept.contains(c) {
                    let i = choose|i: int| 0 <= i < kept.len() && kept[i] == c;
                    assert(kept.push(last)[i] == c);
                }
                if last == c {
                    assert(kept.push(last)[kept.len() as int] == c);
                }
            }
            if channels.no_duplicates() {
                assert(head.no_duplicates());
                assert(!head.contains(last)) by {
                    if head.contains(last) {
                        let i = choose|i: int| 0 <= i < head.len() && head[i] == last;
                        assert(channels[i] == channels[channels.len() - 1]);
                    }
                }
                assert(!kept.contains(last));
                assert forall|i: int, j: int|
                    0 <= i < kept.len() + 1 && 0 <= j < kept.len() + 1 && i != j implies kept.push(
                    last,
                )[i] != kept.push(last)[j] by {
                    if i < kept.len() {
                        assert(kept.contains(kept[i]));
                    }
                    if j < kept.len() {
                        assert(kept.contains(kept[j]));
                    }
                }
            }
        } else if channels.no_duplicates() {
            assert(head.no_duplicates());
        }
    }
}

/// Whoever switches to a conversation finds it in the list afterwards: there is a number that
/// leads back to it.
pub proof fn current_conversations_have_numbers(
    chat: Chat,
    channel: Seq<char>,
    nickname: Seq<char>,
    peer_id: Seq<char>,
)
    ensures
        conversation(chat, 1) == Mode::Public,
        exists|n: int|
            1 <= n <= conversations(with_channel(chat, channel)) && #[trigger] conversation(
                with_channel(chat, channel),
                n,
            ) == Mode::Channel(channel),
        exists|n: int|
            1 <= n <= conversations(with_dm(chat, nickname, peer_id)) && #[trigger] conversation(
                with_dm(chat, nickname, peer_id),
                n,
            ) == (Mode::PrivateDM { nickname, peer_id }),
{
    let joined = with_channel(chat, channel);
    assert(joined.channels.contains(channel)) by {
        adding_and_removing_channels(chat, channel, channel);
    }
    let i = choose|i: int| 0 <= i < joined.channels.len() && joined.channels[i] == channel;
    assert(conversation(joined, i + 2) == Mode::Channel(channel));
    let talking = with_dm(chat, nickname, peer_id);
    assert(talking.dm_names.contains(nickname)) by {
        if !chat.dm_names.contains(nickname) {
            assert(talking.dm_names[chat.dm_names.len() as int] == nickname);
        }
    }
    let j = choose|j: int| 0 <= j < talking.dm_names.len() && talking.dm_names[j] == nickname;
    assert(conversation(talking, j + 2 + talking.channels.len()) == (Mode::PrivateDM {
        nickname,
        peer_id,
    }));
}

} // verus!
