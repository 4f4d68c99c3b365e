//! The failures that the engine answers a command with: a closed set, each
//! with its numeric reply code and its text.

use vstd::prelude::*;
use vstd::string::*;
use crate::text::{three_digit_text, three_digits};

verus! {

/// The failures that applying a command can be answered with. Each has one
/// numeric reply code and one line of text; a variant carries what its text
/// quotes.
#[allow(dead_code)]
#[derive(Debug, PartialEq, Eq)]
pub enum IrcError {
    NoSuchNick { nickname: String },
    NoSuchServer { server: String },
    NoSuchChannel { channel: String },
    CannotSendToChan { channel: String },
    TooManyChannels { channel: String },
    WasNoSuchNick { nickname: String },
    TooManyTargets { target: String },
    NoOrigin,
    NoRecipient { command: String },
    NoTextToSend,
    NoTopLevel { mask: String },
    WildTopLevel { mask: String },
    UnknownCommand { command: String },
    NoMotd,
    NoAdminInfo { server: String },
    FileError { file_op: String, file: String },
    NoNickNameGiven,
    ErroneusNickname { nickname: String },
    NicknameInUse { nickname: String },
    NickCollision { nickname: String },
    UserNotInChannel { nickname: String, channel: String },
    NotOnChannel { channel: String },
    UserOnChannel { user: String, channel: String },
    NoLogin { user: String },
    SummonDisabled,
    UsersDisabled,
    NotRegistered,
    NeedMoreParams { command: String },
    AlreadyRegistered,
    NoPermForHost,
    PasswdMismatch,
    YoureBannedCreep,
    KeySet { channel: String },
    ChannelIsFull { channel: String },
    UnknownMode { char: char },
    InviteOnlyChan { channel: String },
    BannedFromChan { channel: String },
    BadChannelKey { channel: String },
    NoPrivileges,
    ChanOPrivsNeeded { channel: String },
    CantKillServer,
    NoOperHost,
    UModeUnkownFlag,
    UsersDontMatch,
}

/// An [`IrcError`] with each string taken as the sequence of its characters.
pub enum IrcErrorView {
    NoSuchNick { nickname: Seq<char> },
    NoSuchServer { server: Seq<char> },
    NoSuchChannel { channel: Seq<char> },
    CannotSendToChan { channel: Seq<char> },
    TooManyChannels { channel: Seq<char> },
    WasNoSuchNick { nickname: Seq<char> },
    TooManyTargets { target: Seq<char> },
    NoOrigin,
    NoRecipient { command: Seq<char> },
    NoTextToSend,
    NoTopLevel { mask: Seq<char> },
    WildTopLevel { mask: Seq<char> },
    UnknownCommand { command: Seq<char> },
    NoMotd,
    NoAdminInfo { server: Seq<char> },
    FileError { file_op: Seq<char>, file: Seq<char> },
    NoNickNameGiven,
    ErroneusNickname { nickname: Seq<char> },
    NicknameInUse { nickname: Seq<char> },
    NickCollision { nickname: Seq<char> },
    UserNotInChannel { nickname: Seq<char>, channel: Seq<char> },
    NotOnChannel { channel: Seq<char> },
    UserOnChannel { user: Seq<char>, channel: Seq<char> },
    NoLogin { user: Seq<char> },
    SummonDisabled,
    UsersDisabled,
    NotRegistered,
    NeedMoreParams { command: Seq<char> },
    AlreadyRegistered,
    NoPermForHost,
    PasswdMismatch,
    YoureBannedCreep,
    KeySet { channel: Seq<char> },
    ChannelIsFull { channel: Seq<char> },
    UnknownMode { char: char },
    InviteOnlyChan { channel: Seq<char> },
    BannedFromChan { channel: Seq<char> },
    BadChannelKey { channel: Seq<char> },
    NoPrivileges,
    ChanOPrivsNeeded { channel: Seq<char> },
    CantKillServer,
    NoOperHost,
    UModeUnkownFlag,
    UsersDontMatch,
}

impl View for IrcError {
    type V = IrcErrorView;

    open spec fn view(&self) -> IrcErrorView {
        match self {
            IrcError::NoSuchNick { nickname } => IrcErrorView::NoSuchNick { nickname: nickname@ },
            IrcError::NoSuchServer { server } => IrcErrorView::NoSuchServer { server: server@ },
            IrcError::NoSuchChannel { channel } => IrcErrorView::NoSuchChannel {
                channel: channel@,
            },
            IrcError::CannotSendToChan { channel } => IrcErrorView::CannotSendToChan {
                channel: channel@,
            },
            IrcError::TooManyChannels { channel } => IrcErrorView::TooManyChannels {
                channel: channel@,
            },
            IrcError::WasNoSuchNick { nickname } => IrcErrorView::WasNoSuchNick {
                nickname: nickname@,
            },
            IrcError::TooManyTargets { target } => IrcErrorView::TooManyTargets { target: target@ },
            IrcError::NoOrigin => IrcErrorView::NoOrigin,
            IrcError::NoRecipient { command } => IrcErrorView::NoRecipient { command: command@ },
            IrcError::NoTextToSend => IrcErrorView::NoTextToSend,
            IrcError::NoTopLevel { mask } => IrcErrorView::NoTopLevel { mask: mask@ },
            IrcError::WildTopLevel { mask } => IrcErrorView::WildTopLevel { mask: mask@ },
            IrcError::UnknownCommand { command } => IrcErrorView::UnknownCommand {
                command: command@,
            },
            IrcError::NoMotd => IrcErrorView::NoMotd,
            IrcError::NoAdminInfo { server } => IrcErrorView::NoAdminInfo { server: server@ },
            IrcError::FileError { file_op, file } => IrcErrorView::FileError {
                file_op: file_op@,
                file: file@,
            },
            IrcError::NoNickNameGiven => IrcErrorView::NoNickNameGiven,
            IrcError::ErroneusNickname { nickname } => IrcErrorView::ErroneusNickname {
                nickname: nickname@,
            },
            IrcError::NicknameInUse { nickname } => IrcErrorView::NicknameInUse {
                nickname: nickname@,
            },
            IrcError::NickCollision { nickname } => IrcErrorView::NickCollision {
                nickname: nickname@,
            },
            IrcError::UserNotInChannel { nickname, channel } => IrcErrorView::UserNotInChannel {
                nickname: nickname@,
                channel: channel@,
            },
            IrcError::NotOnChannel { channel } => IrcErrorView::NotOnChannel { channel: channel@ },
            IrcError::UserOnChannel { user, channel } => IrcErrorView::UserOnChannel {
                user: user@,
                channel: channel@,
            },
            IrcError::NoLogin { user } => IrcErrorView::NoLogin { user: user@ },
            IrcError::SummonDisabled => IrcErrorView::SummonDisabled,
            IrcError::UsersDisabled => IrcErrorView::UsersDisabled,
            IrcError::NotRegistered => IrcErrorView::NotRegistered,
            IrcError::NeedMoreParams { command } => IrcErrorView::NeedMoreParams {
                command: command@,
            },
            IrcError::AlreadyRegistered => IrcErrorView::AlreadyRegistered,
            IrcError::NoPermForHost => IrcErrorView::NoPermForHost,
            IrcError::PasswdMismatch => IrcErrorView::PasswdMismatch,
            IrcError::YoureBannedCreep => IrcErrorView::YoureBannedCreep,
            IrcError::KeySet { channel } => IrcErrorView::KeySet { channel: channel@ },
            IrcError::ChannelIsFull { channel } => IrcErrorView::ChannelIsFull {
                channel: channel@,
            },
            IrcError::UnknownMode { char } => IrcErrorView::UnknownMode { char: *char },
            IrcError::InviteOnlyChan { channel } => IrcErrorView::InviteOnlyChan {
                channel: channel@,
            },
            IrcError::BannedFromChan { channel } => IrcErrorView::BannedFromChan {
                channel: channel@,
            },
            IrcError::BadChannelKey { channel } => IrcErrorView::BadChannelKey {
                channel: channel@,
            },
            IrcError::NoPrivileges => IrcErrorView::NoPrivileges,
            IrcError::ChanOPrivsNeeded { channel } => IrcErrorView::ChanOPrivsNeeded {
                channel: channel@,
            },
            IrcError::CantKillServer => IrcErrorView::CantKillServer,
            IrcError::NoOperHost => IrcErrorView::NoOperHost,
            IrcError::UModeUnkownFlag => IrcErrorView::UModeUnkownFlag,
            IrcError::UsersDontMatch => IrcErrorView::UsersDontMatch,
        }
    }
}

/// What `{:?}` writes for a string: the string between double quotes, with
/// the characters that need it escaped. How a given string comes out is
/// std's to say; here it is only a name for it, which depends on the string
/// and on nothing else.
pub uninterp spec fn debug_str(s: Seq<char>) -> Seq<char>;

/// What `{:?}` writes for a character: the character between single quotes,
/// escaped if it needs to be. How a given character comes out is std's to
/// say; here it is only a name for it, which depends on the character and
/// on nothing else.
pub uninterp spec fn debug_char(c: char) -> Seq<char>;

/// Formats a string with `format!` and `{:?}`, that is with std's `Debug`
/// for `str`. Believed, not proved: the text it gives is [`debug_str`] of
/// the string.
#[verifier::external_body]
fn quoted(s: &str) -> (r: String)
    ensures
        r@ == debug_str(s@),
{
    format!("{:?}", s)
}

/// Formats a character with `format!` and `{:?}`, that is with std's
/// `Debug` for `char`. Believed, not proved: the text it gives is
/// [`debug_char`] of the character.
#[verifier::external_body]
fn quoted_char(c: char) -> (r: String)
    ensures
        r@ == debug_char(c),
{
    format!("{:?}", c)
}

/// `head` and then `tail`.
fn followed_by(head: &str, tail: &str) -> (r: String)
    ensures
        r@ == head@ + tail@,
{
    let mut r = head.to_owned();
    r.append(tail);
    r
}

impl IrcErrorView {
    /// The numeric reply code of the failure.
    pub open spec fn code(self) -> int {
        match self {
            IrcErrorView::NoSuchNick { .. } => 401,
            IrcErrorView::NoSuchServer { .. } => 402,
            IrcErrorView::NoSuchChannel { .. } => 403,
            IrcErrorView::CannotSendToChan { .. } => 404,
            IrcErrorView::TooManyChannels { .. } => 405,
            IrcErrorView::WasNoSuchNick { .. } => 406,
            IrcErrorView::TooManyTargets { .. } => 407,
            IrcErrorView::NoOrigin => 409,
            IrcErrorView::NoRecipient { .. } => 411,
            IrcErrorView::NoTextToSend => 412,
            IrcErrorView::NoTopLevel { .. } => 413,
            IrcErrorView::WildTopLevel { .. } => 414,
            IrcErrorView::UnknownCommand { .. } => 421,
            IrcErrorView::NoMotd => 422,
            IrcErrorView::NoAdminInfo { .. } => 423,
            IrcErrorView::FileError { .. } => 424,
            IrcErrorView::NoNickNameGiven => 431,
            IrcErrorView::ErroneusNickname { .. } => 432,
            IrcErrorView::NicknameInUse { .. } => 433,
            IrcErrorView::NickCollision { .. } => 436,
            IrcErrorView::UserNotInChannel { .. } => 441,
            IrcErrorView::NotOnChannel { .. } => 442,
            IrcErrorView::UserOnChannel { .. } => 443,
            IrcErrorView::NoLogin { .. } => 444,
            IrcErrorView::SummonDisabled => 445,
            IrcErrorView::UsersDisabled => 446,
            IrcErrorView::NotRegistered => 451,
            IrcErrorView::NeedMoreParams { .. } => 461,
            IrcErrorView::AlreadyRegistered => 462,
            IrcErrorView::NoPermForHost => 463,
            IrcErrorView::PasswdMismatch => 464,
            IrcErrorView::YoureBannedCreep => 465,
            IrcErrorView::KeySet { .. } => 467,
            IrcErrorView::ChannelIsFull { .. } => 471,
            IrcErrorView::UnknownMode { .. } => 472,
            IrcErrorView::InviteOnlyChan { .. } => 473,
            IrcErrorView::BannedFromChan { .. } => 474,
            IrcErrorView::BadChannelKey { .. } => 475,
            IrcErrorView::NoPrivileges => 481,
            IrcErrorView::ChanOPrivsNeeded { .. } => 482,
            IrcErrorView::CantKillServer => 483,
            IrcErrorView::NoOperHost => 491,
            IrcErrorView::UModeUnkownFlag => 501,
            IrcErrorView::UsersDontMatch => 502,
        }
    }

    /// What the failure carries, as its text shows it: at most two pieces,
    /// in the order of the text. Most are shown as `{:?}` writes them.
    pub open spec fn shown(self) -> (Seq<char>, Seq<char>) {
        match self {
            IrcErrorView::NoSuchNick { nickname } => (debug_str(nickname), Seq::<char>::empty()),
            IrcErrorView::NoSuchServer { server } => (debug_str(server), Seq::<char>::empty()),
            IrcErrorView::NoSuchChannel { channel } => (debug_str(channel), Seq::<char>::empty()),
            IrcErrorView::CannotSendToChan { channel } => (
                debug_str(channel),
                Seq::<char>::empty(),
            ),
            IrcErrorView::TooManyChannels { channel } => (debug_str(channel), Seq::<char>::empty()),
            IrcErrorView::WasNoSuchNick { nickname } => (debug_str(nickname), Seq::<char>::empty()),
            IrcErrorView::TooManyTargets { target } => (debug_str(target), Seq::<char>::empty()),
            IrcErrorView::NoOrigin => (Seq::<char>::empty(), Seq::<char>::empty()),
            IrcErrorView::NoRecipient { .. } => (Seq::<char>::empty(), Seq::<char>::empty()),
            IrcErrorView::NoTextToSend => (Seq::<char>::empty(), Seq::<char>::empty()),
            IrcErrorView::NoTopLevel { mask } => (debug_str(mask), Seq::<char>::empty()),
            IrcErrorView::WildTopLevel { mask } => (debug_str(mask), Seq::<char>::empty()),
            IrcErrorView::UnknownCommand { command } => (debug_str(command), Seq::<char>::empty()),
            IrcErrorView::NoMotd => (Seq::<char>::empty(), Seq::<char>::empty()),
            IrcErrorView::NoAdminInfo { server } => (debug_str(server), Seq::<char>::empty()),
            IrcErrorView::FileError { .. } => (Seq::<char>::empty(), Seq::<char>::empty()),
            IrcErrorView::NoNickNameGiven => (Seq::<char>::empty(), Seq::<char>::empty()),
            IrcErrorView::ErroneusNickname { nickname } => (
                debug_str(nickname),
                Seq::<char>::empty(),
            ),
            IrcErrorView::NicknameInUse { nickname } => (debug_str(nickname), Seq::<char>::empty()),
            IrcErrorView::NickCollision { nickname } => (debug_str(nickname), Seq::<char>::empty()),
            IrcErrorView::UserNotInChannel { nickname, channel } => (debug_str(nickname), channel),
            IrcErrorView::NotOnChannel { channel } => (debug_str(channel), Seq::<char>::empty()),
            IrcErrorView::UserOnChannel { user, channel } => (debug_str(user), debug_str(channel)),
            IrcErrorView::NoLogin { user } => (debug_str(user), Seq::<char>::empty()),
            IrcErrorView::SummonDisabled => (Seq::<char>::empty(), Seq::<char>::empty()),
            IrcErrorView::UsersDisabled => (Seq::<char>::empty(), Seq::<char>::empty()),
            IrcErrorView::NotRegistered => (Seq::<char>::empty(), Seq::<char>::empty()),
            IrcErrorView::NeedMoreParams { command } => (debug_str(command), Seq::<char>::empty()),
            IrcErrorView::AlreadyRegistered => (Seq::<char>::empty(), Seq::<char>::empty()),
            IrcErrorView::NoPermForHost => (Seq::<char>::empty(), Seq::<char>::empty()),
            IrcErrorView::PasswdMismatch => (Seq::<char>::empty(), Seq::<char>::empty()),
            IrcErrorView::YoureBannedCreep => (Seq::<char>::empty(), Seq::<char>::empty()),
            IrcErrorView::KeySet { channel } => (debug_str(channel), Seq::<char>::empty()),
            IrcErrorView::ChannelIsFull { channel } => (debug_str(channel), Seq::<char>::empty()),
            IrcErrorView::UnknownMode { char } => (debug_char(char), Seq::<char>::empty()),
            IrcErrorView::InviteOnlyChan { channel } => (debug_str(channel), Seq::<char>::empty()),
            IrcErrorView::BannedFromChan { channel } => (debug_str(channel), Seq::<char>::empty()),
            IrcErrorView::BadChannelKey { channel } => (debug_str(channel), Seq::<char>::empty()),
            IrcErrorView::NoPrivileges => (Seq::<char>::empty(), Seq::<char>::empty()),
            IrcErrorView::ChanOPrivsNeeded { channel } => (
                debug_str(channel),
                Seq::<char>::empty(),
            ),
            IrcErrorView::CantKillServer => (Seq::<char>::empty(), Seq::<char>::empty()),
            IrcErrorView::NoOperHost => (Seq::<char>::empty(), Seq::<char>::empty()),
            IrcErrorView::UModeUnkownFlag => (Seq::<char>::empty(), Seq::<char>::empty()),
            IrcErrorView::UsersDontMatch => (Seq::<char>::empty(), Seq::<char>::empty()),
        }
    }

    /// The text of the failure's reply, after the code, with `first` and
    /// `second` where the text shows what the failure carries.
    pub open spec fn text_with(self, first: Seq<char>, second: Seq<char>) -> Seq<char> {
        match self {
            IrcErrorView::NoSuchNick { .. } => first + " :No such nick/channel"@,
            IrcErrorView::NoSuchServer { .. } => first + " :No such server"@,
            IrcErrorView::NoSuchChannel { .. } => first + " :No such channel"@,
            IrcErrorView::CannotSendToChan { .. } => first + " :Cannot send to channel"@,
            IrcErrorView::TooManyChannels { .. } => first + " :You have joined too many channels"@,
            IrcErrorView::WasNoSuchNick { .. } => first + " :There was no such nickname"@,
            IrcErrorView::TooManyTargets { .. } => first
                + " :Duplicate recipients. No message delivered"@,
            IrcErrorView::NoOrigin => ":No origin specified"@,
            IrcErrorView::NoRecipient { .. } => ":No recipient given (?:command)"@,
            IrcErrorView::NoTextToSend => "No text to send"@,
            IrcErrorView::NoTopLevel { .. } => first + " :No toplevel domain specified"@,
            IrcErrorView::WildTopLevel { .. } => first + " :Wildcard in toplevel domain"@,
            IrcErrorView::UnknownCommand { .. } => first + " :Unknown command"@,
            IrcErrorView::NoMotd => ":MOTD File is missing"@,
            IrcErrorView::NoAdminInfo { .. } => first + " :No administrative info available"@,
            IrcErrorView::FileError { .. } => ":File error doing (?:file_op) on (?:file)"@,
            IrcErrorView::NoNickNameGiven => ":No nickname given"@,
            IrcErrorView::ErroneusNickname { .. } => first + " :Erroneus nickname"@,
            IrcErrorView::NicknameInUse { .. } => first + " :Nickname is already in use"@,
            IrcErrorView::NickCollision { .. } => first + " :Nickname collision KILL"@,
            IrcErrorView::UserNotInChannel { .. } => first + " "@ + second
                + " :They aren't on that channel"@,
            IrcErrorView::NotOnChannel { .. } => first + " :You're not on that channel"@,
            IrcErrorView::UserOnChannel { .. } => first + " "@ + second
                + " :is already on channel"@,
            IrcErrorView::NoLogin { .. } => first + " :User not logged in"@,
            IrcErrorView::SummonDisabled => ":SUMMON has been disabled"@,
            IrcErrorView::UsersDisabled => ":USERS has been disabled"@,
            IrcErrorView::NotRegistered => ":You have not registered"@,
            IrcErrorView::NeedMoreParams { .. } => first + " :Not enough parameters"@,
            IrcErrorView::AlreadyRegistered => ":You may not reregister"@,
            IrcErrorView::NoPermForHost => ":Your host isn't among the privileged"@,
            IrcErrorView::PasswdMismatch => ":Password incorrect"@,
            IrcErrorView::YoureBannedCreep => ":You are banned from this server"@,
            IrcErrorView::KeySet { .. } => first + " :Channel key already set"@,
            IrcErrorView::ChannelIsFull { .. } => first + " :Channot join channel (+l)"@,
            IrcErrorView::UnknownMode { .. } => first + " :is unknown mode char to me"@,
            IrcErrorView::InviteOnlyChan { .. } => first + " :Cannot join channel (+i)"@,
            IrcErrorView::BannedFromChan { .. } => first + " :Cannot join channel (+b)"@,
            IrcErrorView::BadChannelKey { .. } => first + " :Channot join channel (+k)"@,
            IrcErrorView::NoPrivileges => ":Permission Denied - You're not an IRC operator"@,
            IrcErrorView::ChanOPrivsNeeded { .. } => first + " :You're not channel operator"@,
            IrcErrorView::CantKillServer => ":You cant kill a server!"@,
            IrcErrorView::NoOperHost => ":No O-lines for your host"@,
            IrcErrorView::UModeUnkownFlag => ":Unknown MODE flag"@,
            IrcErrorView::UsersDontMatch => ":Cant change mode for other users"@,
        }
    }

    /// Whether `other` is the same kind of failure, whatever the two carry.
    pub open spec fn same_kind(self, other: IrcErrorView) -> bool {
        match self {
            IrcErrorView::NoSuchNick { .. } => other is NoSuchNick,
            IrcErrorView::NoSuchServer { .. } => other is NoSuchServer,
            IrcErrorView::NoSuchChannel { .. } => other is NoSuchChannel,
            IrcErrorView::CannotSendToChan { .. } => other is CannotSendToChan,
            IrcErrorView::TooManyChannels { .. } => other is TooManyChannels,
            IrcErrorView::WasNoSuchNick { .. } => other is WasNoSuchNick,
            IrcErrorView::TooManyTargets { .. } => other is TooManyTargets,
            IrcErrorView::NoOrigin => other is NoOrigin,
            IrcErrorView::NoRecipient { .. } => other is NoRecipient,
            IrcErrorView::NoTextToSend => other is NoTextToSend,
            IrcErrorView::NoTopLevel { .. } => other is NoTopLevel,
            IrcErrorView::WildTopLevel { .. } => other is WildTopLevel,
            IrcErrorView::UnknownCommand { .. } => other is UnknownCommand,
            IrcErrorView::NoMotd => other is NoMotd,
            IrcErrorView::NoAdminInfo { .. } => other is NoAdminInfo,
            IrcErrorView::FileError { .. } => other is FileError,
            IrcErrorView::NoNickNameGiven => other is NoNickNameGiven,
            IrcErrorView::ErroneusNickname { .. } => other is ErroneusNickname,
            IrcErrorView::NicknameInUse { .. } => other is NicknameInUse,
            IrcErrorView::NickCollision { .. } => other is NickCollision,
            IrcErrorView::UserNotInChannel { .. } => other is UserNotInChannel,
            IrcErrorView::NotOnChannel { .. } => other is NotOnChannel,
            IrcErrorView::UserOnChannel { .. } => other is UserOnChannel,
            IrcErrorView::NoLogin { .. } => other is NoLogin,
            IrcErrorView::SummonDisabled => other is SummonDisabled,
            IrcErrorView::UsersDisabled => other is UsersDisabled,
            IrcErrorView::NotRegistered => other is NotRegistered,
            IrcErrorView::NeedMoreParams { .. } => other is NeedMoreParams,
            IrcErrorView::AlreadyRegistered => other is AlreadyRegistered,
            IrcErrorView::NoPermForHost => other is NoPermForHost,
            IrcErrorView::PasswdMismatch => other is PasswdMismatch,
            IrcErrorView::YoureBannedCreep => other is YoureBannedCreep,
            IrcErrorView::KeySet { .. } => other is KeySet,
            IrcErrorView::ChannelIsFull { .. } => other is ChannelIsFull,
            IrcErrorView::UnknownMode { .. } => other is UnknownMode,
            IrcErrorView::InviteOnlyChan { .. } => other is InviteOnlyChan,
            IrcErrorView::BannedFromChan { .. } => other is BannedFromChan,
            IrcErrorView::BadChannelKey { .. } => other is BadChannelKey,
            IrcErrorView::NoPrivileges => other is NoPrivileges,
            IrcErrorView::ChanOPrivsNeeded { .. } => other is ChanOPrivsNeeded,
            IrcErrorView::CantKillServer => other is CantKillServer,
            IrcErrorView::NoOperHost => other is NoOperHost,
            IrcErrorView::UModeUnkownFlag => other is UModeUnkownFlag,
            IrcErrorView::UsersDontMatch => other is UsersDontMatch,
        }
    }

    /// The text of the failure's reply, after the code.
    pub open spec fn text(self) -> Seq<char> {
        self.text_with(self.shown().0, self.shown().1)
    }

    /// The whole reply for the failure: the code in three digits, a space,
    /// and the text.
    pub open spec fn reply(self) -> Seq<char> {
        three_digits(self.code()) + " "@ + self.text()
    }
}

/// Each kind of failure has a code of its own: two failures have the same
/// code exactly when they are of the same kind.
pub proof fn lemma_code_tells_the_kind(a: IrcErrorView, b: IrcErrorView)
    ensures
        a.code() == b.code() <==> a.same_kind(b),
{
}

/// Every code is one of the reply codes for failures, from 401 to 502.
pub proof fn lemma_code_in_range(e: IrcErrorView)
    ensures
        401 <= e.code() <= 502,
{
}

#[allow(dead_code)]
impl IrcError {
    /// The numeric reply code that stands for this failure on the wire.
    pub fn numeric_code(&self) -> (code: i16)
        ensures
            code == self@.code(),
    {
        match *self {
            IrcError::NoSuchNick { .. } => 401,
            IrcError::NoSuchServer { .. } => 402,
            IrcError::NoSuchChannel { .. } => 403,
            IrcError::CannotSendToChan { .. } => 404,
            IrcError::TooManyChannels { .. } => 405,
            IrcError::WasNoSuchNick { .. } => 406,
            IrcError::TooManyTargets { .. } => 407,
            IrcError::NoOrigin => 409,
            IrcError::NoRecipient { .. } => 411,
            IrcError::NoTextToSend => 412,
            IrcError::NoTopLevel { .. } => 413,
            IrcError::WildTopLevel { .. } => 414,
            IrcError::UnknownCommand { .. } => 421,
            IrcError::NoMotd => 422,
            IrcError::NoAdminInfo { .. } => 423,
            IrcError::FileError { .. } => 424,
            IrcError::NoNickNameGiven => 431,
            IrcError::ErroneusNickname { .. } => 432,
            IrcError::NicknameInUse { .. } => 433,
            IrcError::NickCollision { .. } => 436,
            IrcError::UserNotInChannel { .. } => 441,
            IrcError::NotOnChannel { .. } => 442,
            IrcError::UserOnChannel { .. } => 443,
            IrcError::NoLogin { .. } => 444,
            IrcError::SummonDisabled => 445,
            IrcError::UsersDisabled => 446,
            IrcError::NotRegistered => 451,
            IrcError::NeedMoreParams { .. } => 461,
            IrcError::AlreadyRegistered => 462,
            IrcError::NoPermForHost => 463,
            IrcError::PasswdMismatch => 464,
            IrcError::YoureBannedCreep => 465,
            IrcError::KeySet { .. } => 467,
            IrcError::ChannelIsFull { .. } => 471,
            IrcError::UnknownMode { .. } => 472,
            IrcError::InviteOnlyChan { .. } => 473,
            IrcError::BannedFromChan { .. } => 474,
            IrcError::BadChannelKey { .. } => 475,
            IrcError::NoPrivileges => 481,
            IrcError::ChanOPrivsNeeded { .. } => 482,
            IrcError::CantKillServer => 483,
            IrcError::NoOperHost => 491,
            IrcError::UModeUnkownFlag => 501,
            IrcError::UsersDontMatch => 502,
        }
    }

    /// What this failure carries, as its text shows it.
    fn shown(&self) -> (pieces: (String, String))
        ensures
            pieces.0@ == self@.shown().0,
            pieces.1@ == self@.shown().1,
    {
        match self {
            IrcError::NoSuchNick { nickname } => (quoted(nickname.as_str()), String::new()),
            IrcError::NoSuchServer { server } => (quoted(server.as_str()), String::new()),
            IrcError::NoSuchChannel { channel } => (quoted(channel.as_str()), String::new()),
            IrcError::CannotSendToChan { channel } => (quoted(channel.as_str()), String::new()),
            IrcError::TooManyChannels { channel } => (quoted(channel.as_str()), String::new()),
            IrcError::WasNoSuchNick { nickname } => (quoted(nickname.as_str()), String::new()),
            IrcError::TooManyTargets { target } => (quoted(target.as_str()), String::new()),
            IrcError::NoOrigin => (String::new(), String::new()),
            IrcError::NoRecipient { .. } => (String::new(), String::new()),
            IrcError::NoTextToSend => (String::new(), String::new()),
            IrcError::NoTopLevel { mask } => (quoted(mask.as_str()), String::new()),
            IrcError::WildTopLevel { mask } => (quoted(mask.as_str()), String::new()),
            IrcError::UnknownCommand { command } => (quoted(command.as_str()), String::new()),
            IrcError::NoMotd => (String::new(), String::new()),
            IrcError::NoAdminInfo { server } => (quoted(server.as_str()), String::new()),
            IrcError::FileError { .. } => (String::new(), String::new()),
            IrcError::NoNickNameGiven => (String::new(), String::new()),
            IrcError::ErroneusNickname { nickname } => (quoted(nickname.as_str()), String::new()),
            IrcError::NicknameInUse { nickname } => (quoted(nickname.as_str()), String::new()),
            IrcError::NickCollision { nickname } => (quoted(nickname.as_str()), String::new()),
            IrcError::UserNotInChannel { nickname, channel } => (
                quoted(nickname.as_str()),
                channel.clone(),
            ),
            IrcError::NotOnChannel { channel } => (quoted(channel.as_str()), String::new()),
            IrcError::UserOnChannel { user, channel } => (
                quoted(user.as_str()),
                quoted(channel.as_str()),
            ),
            IrcError::NoLogin { user } => (quoted(user.as_str()), String::new()),
            IrcError::SummonDisabled => (String::new(), String::new()),
            IrcError::UsersDisabled => (String::new(), String::new()),
            IrcError::NotRegistered => (String::new(), String::new()),
            IrcError::NeedMoreParams { command } => (quoted(command.as_str()), String::new()),
            IrcError::AlreadyRegistered => (String::new(), String::new()),
            IrcError::NoPermForHost => (String::new(), String::new()),
            IrcError::PasswdMismatch => (String::new(), String::new()),
            IrcError::YoureBannedCreep => (String::new(), String::new()),
            IrcError::KeySet { channel } => (quoted(channel.as_str()), String::new()),
            IrcError::ChannelIsFull { channel } => (quoted(channel.as_str()), String::new()),
            IrcError::UnknownMode { char } => (quoted_char(*char), String::new()),
            IrcError::InviteOnlyChan { channel } => (quoted(channel.as_str()), String::new()),
            IrcError::BannedFromChan { channel } => (quoted(channel.as_str()), String::new()),
            IrcError::BadChannelKey { channel } => (quoted(channel.as_str()), String::new()),
            IrcError::NoPrivileges => (String::new(), String::new()),
            IrcError::ChanOPrivsNeeded { channel } => (quoted(channel.as_str()), String::new()),
            IrcError::CantKillServer => (String::new(), String::new()),
            IrcError::NoOperHost => (String::new(), String::new()),
            IrcError::UModeUnkownFlag => (String::new(), String::new()),
            IrcError::UsersDontMatch => (String::new(), String::new()),
        }
    }

    /// The text that follows the code in this failure's reply, with `first`
    /// and `second` where the text shows what the failure carries.
    pub fn message_with(&self, first: &str, second: &str) -> (text: String)
        ensures
            text@ == self@.text_with(first@, second@),
    {
        match self {
            IrcError::NoSuchNick { .. } => followed_by(first, " :No such nick/channel"),
            IrcError::NoSuchServer { .. } => followed_by(first, " :No such server"),
            IrcError::NoSuchChannel { .. } => followed_by(first, " :No such channel"),
            IrcError::CannotSendToChan { .. } => followed_by(first, " :Cannot send to channel"),
            IrcError::TooManyChannels { .. } => {
                followed_by(first, " :You have joined too many channels")
            },
            IrcError::WasNoSuchNick { .. } => followed_by(first, " :There was no such nickname"),
            IrcError::TooManyTargets { .. } => {
                followed_by(first, " :Duplicate recipients. No message delivered")
            },
            IrcError::NoOrigin => ":No origin specified".to_owned(),
            IrcError::NoRecipient { .. } => ":No recipient given (?:command)".to_owned(),
            IrcError::NoTextToSend => "No text to send".to_owned(),
            IrcError::NoTopLevel { .. } => followed_by(first, " :No toplevel domain specified"),
            IrcError::WildTopLevel { .. } => followed_by(first, " :Wildcard in toplevel domain"),
            IrcError::UnknownCommand { .. } => followed_by(first, " :Unknown command"),
            IrcError::NoMotd => ":MOTD File is missing".to_owned(),
            IrcError::NoAdminInfo { .. } => {
                followed_by(first, " :No administrative info available")
            },
            IrcError::FileError { .. } => ":File error doing (?:file_op) on (?:file)".to_owned(),
            IrcError::NoNickNameGiven => ":No nickname given".to_owned(),
            IrcError::ErroneusNickname { .. } => followed_by(first, " :Erroneus nickname"),
            IrcError::NicknameInUse { .. } => followed_by(first, " :Nickname is already in use"),
            IrcError::NickCollision { .. } => followed_by(first, " :Nickname collision KILL"),
            IrcError::UserNotInChannel { .. } => {
                let both = followed_by(followed_by(first, " ").as_str(), second);
                followed_by(both.as_str(), " :They aren't on that channel")
            },
            IrcError::NotOnChannel { .. } => followed_by(first, " :You're not on that channel"),
            IrcError::UserOnChannel { .. } => {
                let both = followed_by(followed_by(first, " ").as_str(), second);
                followed_by(both.as_str(), " :is already on channel")
            },
            IrcError::NoLogin { .. } => followed_by(first, " :User not logged in"),
            IrcError::SummonDisabled => ":SUMMON has been disabled".to_owned(),
            IrcError::UsersDisabled => ":USERS has been disabled".to_owned(),
            IrcError::NotRegistered => ":You have not registered".to_owned(),
            IrcError::NeedMoreParams { .. } => followed_by(first, " :Not enough parameters"),
            IrcError::AlreadyRegistered => ":You may not reregister".to_owned(),
            IrcError::NoPermForHost => ":Your host isn't among the privileged".to_owned(),
            IrcError::PasswdMismatch => ":Password incorrect".to_owned(),
            IrcError::YoureBannedCreep => ":You are banned from this server".to_owned(),
            IrcError::KeySet { .. } => followed_by(first, " :Channel key already set"),
            IrcError::ChannelIsFull { .. } => followed_by(first, " :Channot join channel (+l)"),
            IrcError::UnknownMode { .. } => followed_by(first, " :is unknown mode char to me"),
            IrcError::InviteOnlyChan { .. } => followed_by(first, " :Cannot join channel (+i)"),
            IrcError::BannedFromChan { .. } => followed_by(first, " :Cannot join channel (+b)"),
            IrcError::BadChannelKey { .. } => followed_by(first, " :Channot join channel (+k)"),
            IrcError::NoPrivileges => ":Permission Denied - You're not an IRC operator".to_owned(),
            IrcError::ChanOPrivsNeeded { .. } => {
                followed_by(first, " :You're not channel operator")
            },
            IrcError::CantKillServer => ":You cant kill a server!".to_owned(),
            IrcError::NoOperHost => ":No O-lines for your host".to_owned(),
            IrcError::UModeUnkownFlag => ":Unknown MODE flag".to_owned(),
            IrcError::UsersDontMatch => ":Cant change mode for other users".to_owned(),
        }
    }

    /// The text that follows the code in this failure's reply.
    pub fn message(&self) -> (text: String)
        ensures
            text@ == self@.text(),
    {
        let (first, second) = self.shown();
        self.message_with(first.as_str(), second.as_str())
    }

    /// The whole reply for this failure: the code in three digits, a space,
    /// and the text.
    pub fn reply(&self) -> (line: String)
        ensures
            line@ == self@.reply(),
    {
        let code = self.numeric_code();
        let mut line = three_digit_text(code as u16);
        line.append(" ");
        line.append(self.message().as_str());
        line
    }
}

} // verus!
