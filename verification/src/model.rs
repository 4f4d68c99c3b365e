//! The registries as mathematics: who is connected, which channels exist,
//! and what each command makes of them.
//!
//! An identity is known by the number of its connection. It is registered
//! once it has both a nickname and a user name. A channel is known by its
//! name and exists as long as it has a member.

use vstd::prelude::*;
use crate::commands::{CommandKindView, CommandView};
use crate::errors::IrcErrorView;

verus! {

/// One connected client.
#[verifier::ext_equal]
pub struct IdentityView {
    pub nickname: Option<Seq<char>>,
    pub username: Option<Seq<char>>,
    pub mode: u8,
    pub realname: Option<Seq<char>>,
    /// The names of the channels it is in.
    pub channels: Set<Seq<char>>,
}

/// One channel.
#[verifier::ext_equal]
pub struct ChannelView {
    /// The key that a newcomer must offer, where the channel has one.
    pub key: Option<Seq<char>>,
    /// The identities in it.
    pub members: Set<u64>,
}

/// Both registries.
#[verifier::ext_equal]
pub struct StateView {
    pub identities: Map<u64, IdentityView>,
    pub channels: Map<Seq<char>, ChannelView>,
}

/// What one recipient is told.
pub enum NoticeView {
    /// `nickname` has entered `channel`.
    Joined { nickname: Seq<char>, channel: Seq<char> },
    /// `nickname` has left `channel`.
    Parted { nickname: Seq<char>, channel: Seq<char> },
    /// `nickname` is gone for good.
    Quit { nickname: Seq<char>, message: Option<Seq<char>> },
    /// `sender` says `text` to `recipient`, a nickname or a channel.
    Message { sender: Seq<char>, recipient: Seq<char>, text: Seq<char> },
    /// The answer to a ping.
    Pong { source: Seq<char>, target: Option<Seq<char>> },
    /// One part of the command failed; the rest of it went on.
    Failed(IrcErrorView),
}

impl NoticeView {
    /// Whether the notice is one that a `JOIN` gives for this channel: that
    /// someone has entered it, or that its key was not offered.
    pub open spec fn concerns(self, channel: Seq<char>) -> bool {
        match self {
            NoticeView::Joined { channel: entered, .. } => entered == channel,
            NoticeView::Failed(IrcErrorView::BadChannelKey { channel: refused }) => refused
                == channel,
            _ => false,
        }
    }

    /// The notice as a line on the wire, without its end.
    pub open spec fn line(self) -> Seq<char> {
        match self {
            NoticeView::Joined { nickname, channel } => ":"@ + nickname + " JOIN "@ + channel,
            NoticeView::Parted { nickname, channel } => ":"@ + nickname + " PART "@ + channel,
            NoticeView::Quit { nickname, message } => match message {
                Some(message) => ":"@ + nickname + " QUIT :"@ + message,
                None => ":"@ + nickname + " QUIT"@,
            },
            NoticeView::Message { sender, recipient, text } => ":"@ + sender + " PRIVMSG "@
                + recipient + " :"@ + text,
            NoticeView::Pong { source, target } => match target {
                Some(target) => "PONG "@ + source + " "@ + target,
                None => "PONG "@ + source,
            },
            NoticeView::Failed(e) => e.reply(),
        }
    }
}

/// A notice and the identity it is for.
pub struct ReplyView {
    pub to: u64,
    pub notice: NoticeView,
}

/// One thing that can happen to the registries.
pub enum StepView {
    /// A client connects under this number.
    Connect(u64),
    /// A client that never registered is dropped.
    Forget(u64),
    /// A command comes from this identity.
    Apply(u64, CommandView),
}

/// The registries after a command, and what the command came to: the
/// replies to deliver, or the failure, in which case nothing has changed.
pub struct Outcome {
    pub state: StateView,
    pub result: Result<Set<ReplyView>, IrcErrorView>,
}

impl IdentityView {
    /// Registered means: has a nickname and a user name.
    pub open spec fn registered(self) -> bool {
        self.nickname is Some && self.username is Some
    }

    /// A client that has just connected.
    pub open spec fn fresh() -> IdentityView {
        IdentityView {
            nickname: None,
            username: None,
            mode: 0,
            realname: None,
            channels: Set::empty(),
        }
    }
}

/// Whether a message target has the look of a channel name.
pub open spec fn channel_shaped(target: Seq<char>) -> bool {
    target.len() > 0 && (target[0] == '#' || target[0] == '&' || target[0] == '+' || target[0]
        == '!')
}

/// The key offered for the channel at index `i` of a `JOIN`.
pub open spec fn key_at(keys: Option<Seq<Seq<char>>>, i: int) -> Option<Seq<char>> {
    match keys {
        Some(keys) => if 0 <= i < keys.len() {
            Some(keys[i])
        } else {
            None
        },
        None => None,
    }
}

impl ChannelView {
    /// Whether the channel has a member besides `id`.
    pub open spec fn has_other(self, id: u64) -> bool {
        exists|other: u64| other != id && #[trigger] self.members.contains(other)
    }
}

impl StateView {
    /// No identity and no channel.
    pub open spec fn empty() -> StateView {
        StateView { identities: Map::empty(), channels: Map::empty() }
    }

    /// Whether a client is connected under this number.
    pub open spec fn knows(self, id: u64) -> bool {
        self.identities.dom().contains(id)
    }

    /// Whether a client is connected under this number and registered.
    pub open spec fn registered(self, id: u64) -> bool {
        self.knows(id) && self.identities[id].registered()
    }

    /// Whether the identity lists the channel among its own.
    pub open spec fn occupies(self, id: u64, channel: Seq<char>) -> bool {
        self.knows(id) && self.identities[id].channels.contains(channel)
    }

    /// Whether the channel lists the identity among its members.
    pub open spec fn has_member(self, channel: Seq<char>, id: u64) -> bool {
        self.channels.dom().contains(channel) && self.channels[channel].members.contains(id)
    }

    /// Whether a registered identity holds the nickname.
    pub open spec fn holds(self, id: u64, nickname: Seq<char>) -> bool {
        self.registered(id) && self.identities[id].nickname == Some(nickname)
    }

    /// Whether a registered identity other than `id` holds the nickname.
    pub open spec fn nick_in_use(self, id: u64, nickname: Seq<char>) -> bool {
        exists|other: u64| other != id && #[trigger] self.holds(other, nickname)
    }

    /// The identities other than `id` that are in one of the channels in
    /// `among`.
    pub open spec fn peers_in(self, id: u64, among: Set<Seq<char>>) -> Set<u64> {
        Set::new(
            |other: u64|
                other != id && exists|channel: Seq<char>|
                    among.contains(channel) && #[trigger] self.has_member(channel, other),
        )
    }

    /// Whether two identities are in some channel together.
    pub open spec fn share_channel(self, a: u64, b: u64) -> bool {
        exists|channel: Seq<char>| #[trigger]
            self.has_member(channel, a) && self.has_member(channel, b)
    }

    /// What holds of the registries at all times:
    /// an identity lists a channel exactly when the channel lists the
    /// identity; every channel has a member; no two registered identities
    /// have the same nickname; and only registered identities are in
    /// channels.
    pub open spec fn consistent(self) -> bool {
        &&& forall|id: u64, channel: Seq<char>|
            #![trigger self.occupies(id, channel)]
            #![trigger self.has_member(channel, id)]
            self.occupies(id, channel) <==> self.has_member(channel, id)
        &&& forall|channel: Seq<char>| #[trigger]
            self.channels.dom().contains(channel) ==> exists|id: u64| #[trigger]
                self.has_member(channel, id)
        &&& forall|a: u64, b: u64, nickname: Seq<char>|
            #![trigger self.holds(a, nickname), self.holds(b, nickname)]
            self.holds(a, nickname) && self.holds(b, nickname) ==> a == b
        &&& forall|id: u64, channel: Seq<char>| #[trigger]
            self.occupies(id, channel) ==> self.registered(id)
    }

    /// The registries with one more client, not registered and in no
    /// channel. A number that is known already changes nothing.
    pub open spec fn connect(self, id: u64) -> StateView {
        if self.knows(id) {
            self
        } else {
            StateView { identities: self.identities.insert(id, IdentityView::fresh()), ..self }
        }
    }

    /// The registries without a client that never registered. A registered
    /// one stays: it leaves by quitting.
    pub open spec fn forget(self, id: u64) -> StateView {
        if self.knows(id) && !self.registered(id) {
            StateView { identities: self.identities.remove(id), ..self }
        } else {
            self
        }
    }

    /// `NICK`: the identity takes the nickname, and nobody is told. It
    /// fails with `NotRegistered` for a number that is not connected, and
    /// with `NicknameInUse` where another registered identity holds the
    /// nickname.
    pub open spec fn nick(self, id: u64, nickname: Seq<char>) -> Outcome {
        if !self.knows(id) {
            Outcome { state: self, result: Err(IrcErrorView::NotRegistered) }
        } else if self.nick_in_use(id, nickname) {
            Outcome { state: self, result: Err(IrcErrorView::NicknameInUse { nickname }) }
        } else {
            Outcome {
                state: StateView {
                    identities: self.identities.insert(
                        id,
                        IdentityView { nickname: Some(nickname), ..self.identities[id] },
                    ),
                    ..self
                },
                result: Ok(Set::empty()),
            }
        }
    }

    /// `USER`: the identity records who it is. It fails with
    /// `NotRegistered` for a number that is not connected, with
    /// `AlreadyRegistered` for an identity that is registered, and with
    /// `NicknameInUse` where it would register the identity under a nickname
    /// that another registered identity holds by now.
    pub open spec fn user(
        self,
        id: u64,
        username: Seq<char>,
        mode: u8,
        realname: Seq<char>,
    ) -> Outcome {
        if !self.knows(id) {
            Outcome { state: self, result: Err(IrcErrorView::NotRegistered) }
        } else if self.registered(id) {
            Outcome { state: self, result: Err(IrcErrorView::AlreadyRegistered) }
        } else if self.identities[id].nickname is Some && self.nick_in_use(
            id,
            self.identities[id].nickname->0,
        ) {
            Outcome {
                state: self,
                result: Err(
                    IrcErrorView::NicknameInUse { nickname: self.identities[id].nickname->0 },
                ),
            }
        } else {
            Outcome {
                state: StateView {
                    identities: self.identities.insert(
                        id,
                        IdentityView {
                            username: Some(username),
                            mode,
                            realname: Some(realname),
                            ..self.identities[id]
                        },
                    ),
                    ..self
                },
                result: Ok(Set::empty()),
            }
        }
    }

    /// The registries after the identity has entered the channel.
    pub open spec fn enter(self, id: u64, channel: Seq<char>, key: Option<Seq<char>>) -> StateView {
        StateView {
            identities: self.identities.insert(
                id,
                IdentityView {
                    channels: self.identities[id].channels.insert(channel),
                    ..self.identities[id]
                },
            ),
            channels: if self.channels.dom().contains(channel) {
                self.channels.insert(
                    channel,
                    ChannelView {
                        members: self.channels[channel].members.insert(id),
                        ..self.channels[channel]
                    },
                )
            } else {
                self.channels.insert(channel, ChannelView { key, members: set![id] })
            },
        }
    }

    /// The notice of an entry for every member of the channel.
    pub open spec fn joined_notices(self, id: u64, channel: Seq<char>) -> Set<ReplyView> {
        Set::new(
            |r: ReplyView|
                self.has_member(channel, r.to) && r.notice == (NoticeView::Joined {
                    nickname: self.identities[id].nickname->0,
                    channel,
                }),
        )
    }

    /// One channel of a `JOIN`, for a registered identity. A channel that
    /// does not exist is made, with the key offered as its key. A channel
    /// that the identity is in already is left alone. A channel with a key
    /// takes the identity in only where that very key is offered; if not,
    /// the identity is told so and nothing changes. Everyone in the channel
    /// after an entry, the newcomer too, is told of it.
    pub open spec fn join_one(self, id: u64, channel: Seq<char>, key: Option<Seq<char>>) -> (
        StateView,
        Set<ReplyView>,
    ) {
        if self.has_member(channel, id) {
            (self, Set::empty())
        } else if self.channels.dom().contains(channel) && self.channels[channel].key is Some
            && self.channels[channel].key != key {
            (
                self,
                set![
                    ReplyView {
                        to: id,
                        notice: NoticeView::Failed(IrcErrorView::BadChannelKey { channel }),
                    },
                ],
            )
        } else {
            let after = self.enter(id, channel, key);
            (after, after.joined_notices(id, channel))
        }
    }

    /// The first `n` channels of a `JOIN`, one after the other.
    pub open spec fn join_first(
        self,
        id: u64,
        channels: Seq<Seq<char>>,
        keys: Option<Seq<Seq<char>>>,
        n: nat,
    ) -> (StateView, Set<ReplyView>)
        decreases n,
    {
        if n == 0 {
            (self, Set::empty())
        } else {
            let (before, told) = self.join_first(id, channels, keys, (n - 1) as nat);
            let (after, more) = before.join_one(id, channels[n - 1], key_at(keys, n - 1));
            (after, told.union(more))
        }
    }

    /// The registries after the identity has left those of its channels
    /// that are in `gone`. A channel that it was alone in is no more.
    pub open spec fn leave(self, id: u64, gone: Set<Seq<char>>) -> StateView {
        StateView {
            identities: if self.knows(id) {
                self.identities.insert(
                    id,
                    IdentityView {
                        channels: self.identities[id].channels.difference(gone),
                        ..self.identities[id]
                    },
                )
            } else {
                self.identities
            },
            channels: Map::new(
                |channel: Seq<char>|
                    self.channels.dom().contains(channel) && (gone.contains(channel)
                        ==> self.channels[channel].has_other(id)),
                |channel: Seq<char>|
                    if gone.contains(channel) {
                        ChannelView {
                            members: self.channels[channel].members.remove(id),
                            ..self.channels[channel]
                        }
                    } else {
                        self.channels[channel]
                    },
            ),
        }
    }

    /// The notice of a leave for every member of every channel that the
    /// identity is in, the identity itself among them.
    pub open spec fn parted_notices(self, id: u64) -> Set<ReplyView> {
        Set::new(
            |r: ReplyView|
                r.notice matches NoticeView::Parted { nickname, channel } && nickname
                    == self.identities[id].nickname->0 && self.has_member(channel, id)
                    && self.has_member(channel, r.to),
        )
    }

    /// `JOIN`: `0` alone leaves every channel; any other list is gone
    /// through channel by channel, and a channel that refuses the identity
    /// does not stop the others. It fails, as a whole, with `NotRegistered`
    /// for an identity that is not registered.
    pub open spec fn join(
        self,
        id: u64,
        channels: Seq<Seq<char>>,
        keys: Option<Seq<Seq<char>>>,
    ) -> Outcome {
        if !self.registered(id) {
            Outcome { state: self, result: Err(IrcErrorView::NotRegistered) }
        } else if channels == seq!["0"@] {
            Outcome {
                state: self.leave(id, self.identities[id].channels),
                result: Ok(self.parted_notices(id)),
            }
        } else {
            let (after, told) = self.join_first(id, channels, keys, channels.len());
            Outcome { state: after, result: Ok(told) }
        }
    }

    /// `PING`: the identity is answered; nothing changes. It fails with
    /// `NotRegistered` for an identity that is not registered.
    pub open spec fn ping(self, id: u64, source: Seq<char>, target: Option<Seq<char>>) -> Outcome {
        if !self.registered(id) {
            Outcome { state: self, result: Err(IrcErrorView::NotRegistered) }
        } else {
            Outcome {
                state: self,
                result: Ok(set![ReplyView { to: id, notice: NoticeView::Pong { source, target } }]),
            }
        }
    }

    /// `PRIVMSG`: a text for a channel goes to its other members, a text
    /// for a nickname to the registered identity that holds it. Nothing
    /// changes. It fails with `NotRegistered` for an identity that is not
    /// registered, then with `NoTextToSend` for an empty text, with
    /// `CannotSendToChan` for a channel that the identity is not in, and,
    /// where the target is neither a channel nor a nickname that is held,
    /// with `NoSuchChannel` or `NoSuchNick` by the look of the target.
    pub open spec fn privmsg(self, id: u64, target: Seq<char>, text: Seq<char>) -> Outcome {
        let notice = NoticeView::Message {
            sender: self.identities[id].nickname->0,
            recipient: target,
            text,
        };
        Outcome {
            state: self,
            result: if !self.registered(id) {
                Err(IrcErrorView::NotRegistered)
            } else if text.len() == 0 {
                Err(IrcErrorView::NoTextToSend)
            } else if self.channels.dom().contains(target) {
                if !self.has_member(target, id) {
                    Err(IrcErrorView::CannotSendToChan { channel: target })
                } else {
                    Ok(
                        Set::new(
                            |r: ReplyView|
                                r.notice == notice && r.to != id && self.has_member(target, r.to),
                        ),
                    )
                }
            } else if exists|other: u64| #[trigger] self.holds(other, target) {
                Ok(Set::new(|r: ReplyView| r.notice == notice && self.holds(r.to, target)))
            } else if channel_shaped(target) {
                Err(IrcErrorView::NoSuchChannel { channel: target })
            } else {
                Err(IrcErrorView::NoSuchNick { nickname: target })
            },
        }
    }

    /// `QUIT`: the identity leaves its channels and the registry, and
    /// everyone who was in a channel with it is told. It fails with
    /// `NotRegistered` for an identity that is not registered.
    pub open spec fn quit(self, id: u64, message: Option<Seq<char>>) -> Outcome {
        if !self.registered(id) {
            Outcome { state: self, result: Err(IrcErrorView::NotRegistered) }
        } else {
            let left = self.leave(id, self.identities[id].channels);
            Outcome {
                state: StateView { identities: left.identities.remove(id), ..left },
                result: Ok(
                    Set::new(
                        |r: ReplyView|
                            r.notice == (NoticeView::Quit {
                                nickname: self.identities[id].nickname->0,
                                message,
                            }) && r.to != id && self.share_channel(id, r.to),
                    ),
                ),
            }
        }
    }

    /// The registries after one step.
    pub open spec fn step(self, step: StepView) -> StateView {
        match step {
            StepView::Connect(id) => self.connect(id),
            StepView::Forget(id) => self.forget(id),
            StepView::Apply(id, command) => self.apply(id, command).state,
        }
    }

    /// The registries after the steps, one after the other.
    pub open spec fn run(self, steps: Seq<StepView>) -> StateView
        decreases steps.len(),
    {
        if steps.len() == 0 {
            self
        } else {
            self.run(steps.drop_last()).step(steps.last())
        }
    }

    /// What the command, coming from the identity, makes of the registries.
    /// The origin that the line may have named plays no part.
    pub open spec fn apply(self, id: u64, command: CommandView) -> Outcome {
        match command.kind {
            CommandKindView::Join { channels, keys } => self.join(id, channels, keys),
            CommandKindView::Nick { nickname } => self.nick(id, nickname),
            CommandKindView::User { username, mode, full_name } => self.user(
                id,
                username,
                mode,
                full_name,
            ),
            CommandKindView::Ping { source_server, target_server } => self.ping(
                id,
                source_server,
                target_server,
            ),
            CommandKindView::PrivMsg { message_target, message_text } => self.privmsg(
                id,
                message_target,
                message_text,
            ),
            CommandKindView::Quit { quit_message } => self.quit(id, quit_message),
        }
    }
}

} // verus!
