//! The typed form of one protocol line.

use vstd::prelude::*;

verus! {

/// One parsed line: who it claims to come from, and what it asks for.
#[derive(Debug, PartialEq)]
pub struct Command {
    /// The origin written before the verb, without its leading colon. Only a
    /// line that begins with a colon has one.
    pub prefix: Option<String>,
    pub kind: CommandKind,
}

/// What a line asks for, with the parameters of its verb.
#[derive(Debug, PartialEq)]
pub enum CommandKind {
    /// Enter the channels, in order. `keys[i]`, where there is one, is the
    /// key offered for `channels[i]`. The single channel `0` stands for
    /// leaving every channel.
    Join { channels: Vec<String>, keys: Option<Vec<String>> },
    Nick { nickname: String },
    User { username: String, mode: u8, full_name: String },
    Ping { source_server: String, target_server: Option<String> },
    PrivMsg { message_target: String, message_text: String },
    Quit { quit_message: Option<String> },
}

/// A [`Command`] with each string taken as the sequence of its characters.
pub struct CommandView {
    pub prefix: Option<Seq<char>>,
    pub kind: CommandKindView,
}

/// A [`CommandKind`] with each string taken as the sequence of its characters.
pub enum CommandKindView {
    Join { channels: Seq<Seq<char>>, keys: Option<Seq<Seq<char>>> },
    Nick { nickname: Seq<char> },
    User { username: Seq<char>, mode: u8, full_name: Seq<char> },
    Ping { source_server: Seq<char>, target_server: Option<Seq<char>> },
    PrivMsg { message_target: Seq<char>, message_text: Seq<char> },
    Quit { quit_message: Option<Seq<char>> },
}

impl CommandView {
    /// Whether the command is a `JOIN` that names some channel twice.
    pub open spec fn repeats_a_channel(self) -> bool {
        match self.kind {
            CommandKindView::Join { channels, .. } => !channels.no_duplicates(),
            _ => false,
        }
    }
}

impl View for CommandKind {
    type V = CommandKindView;

    open spec fn view(&self) -> CommandKindView {
        match self {
            CommandKind::Join { channels, keys } => CommandKindView::Join {
                channels: channels.deep_view(),
                keys: keys.deep_view(),
            },
            CommandKind::Nick { nickname } => CommandKindView::Nick { nickname: nickname@ },
            CommandKind::User { username, mode, full_name } => CommandKindView::User {
                username: username@,
                mode: *mode,
                full_name: full_name@,
            },
            CommandKind::Ping { source_server, target_server } => CommandKindView::Ping {
                source_server: source_server@,
                target_server: target_server.deep_view(),
            },
            CommandKind::PrivMsg { message_target, message_text } => CommandKindView::PrivMsg {
                message_target: message_target@,
                message_text: message_text@,
            },
            CommandKind::Quit { quit_message } => CommandKindView::Quit {
                quit_message: quit_message.deep_view(),
            },
        }
    }
}

impl View for Command {
    type V = CommandView;

    open spec fn view(&self) -> CommandView {
        CommandView { prefix: self.prefix.deep_view(), kind: self.kind@ }
    }
}

} // verus!
