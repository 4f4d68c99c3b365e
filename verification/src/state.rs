//! The engine: the registries of identities and channels, and the one
//! place where commands change them.
//!
//! The registries are two lists. What they mean is their view, a
//! [`StateView`]; every function here says what it does in terms of that
//! view, and keeps the lists well formed.

use vstd::prelude::*;
use vstd::string::*;
use crate::assoc::{
    assoc, lemma_assoc_index, lemma_assoc_key, lemma_assoc_push, lemma_assoc_remove,
    lemma_assoc_update, lemma_push_no_duplicates, lemma_to_set_push, lemma_to_set_remove,
};
use crate::commands::{Command, CommandKind};
use crate::errors::IrcError;
use crate::laws::{
    lemma_connect_consistent, lemma_empty_consistent, lemma_forget_consistent,
    lemma_join_one_consistent, lemma_leave_consistent, lemma_leave_none, lemma_leave_one_more,
    lemma_nick_consistent, lemma_quit_consistent, lemma_user_consistent,
};
use crate::model::{key_at, ChannelView, IdentityView, NoticeView, ReplyView, StateView};
use crate::replies::{
    copy_of, each_once, lemma_told_empty, lemma_told_push, notices_for, result_view, tell_each,
    told, Notice, Reply,
};
use crate::text::{rest, same_text, tokens_from};

verus! {

/// One connected client, as the engine keeps it.
#[derive(Debug, PartialEq, Eq)]
pub struct Identity {
    /// The number of its connection.
    pub id: u64,
    pub nickname: Option<String>,
    pub username: Option<String>,
    pub mode: u8,
    pub realname: Option<String>,
    /// The names of the channels it is in, each once.
    pub channels: Vec<String>,
}

/// One channel, as the engine keeps it.
#[derive(Debug, PartialEq, Eq)]
pub struct Channel {
    pub name: String,
    pub key: Option<String>,
    /// The identities in it, each once.
    pub members: Vec<u64>,
}

/// The registries.
pub struct State {
    identities: Vec<Identity>,
    channels: Vec<Channel>,
}

impl View for Identity {
    type V = IdentityView;

    open spec fn view(&self) -> IdentityView {
        IdentityView {
            nickname: self.nickname.deep_view(),
            username: self.username.deep_view(),
            mode: self.mode,
            realname: self.realname.deep_view(),
            channels: self.channels.deep_view().to_set(),
        }
    }
}

impl View for Channel {
    type V = ChannelView;

    open spec fn view(&self) -> ChannelView {
        ChannelView { key: self.key.deep_view(), members: self.members@.to_set() }
    }
}

impl Identity {
    /// Whether it has both a nickname and a user name.
    pub fn is_registered(&self) -> (r: bool)
        ensures
            r == self@.registered(),
    {
        self.nickname.is_some() && self.username.is_some()
    }
}

impl View for State {
    type V = StateView;

    closed spec fn view(&self) -> StateView {
        StateView {
            identities: assoc(self.ids(), self.identity_views()),
            channels: assoc(self.names(), self.channel_views()),
        }
    }
}

/// The index of `id` in the list, if it is there.
fn position_of(list: &Vec<u64>, id: u64) -> (r: Option<usize>)
    ensures
        match r {
            Some(i) => i < list.len() && list[i as int] == id,
            None => !list@.contains(id),
        },
{
    let mut i: usize = 0;
    while i < list.len()
        invariant
            i <= list.len(),
            forall|j: int| 0 <= j < i ==> list[j] != id,
        decreases list.len() - i,
    {
        if list[i] == id {
            return Some(i);
        }
        i = i + 1;
    }
    None
}

/// The index of `name` in the list, if it is there.
fn position_of_name(list: &Vec<String>, name: &str) -> (r: Option<usize>)
    ensures
        match r {
            Some(i) => i < list.len() && list[i as int]@ == name@,
            None => !list.deep_view().contains(name@),
        },
{
    let mut i: usize = 0;
    while i < list.len()
        invariant
            i <= list.len(),
            forall|j: int| 0 <= j < i ==> list[j]@ != name@,
        decreases list.len() - i,
    {
        if same_text(list[i].as_str(), name) {
            return Some(i);
        }
        i = i + 1;
    }
    assert forall|j: int| 0 <= j < list.deep_view().len() implies list.deep_view()[j]
        != name@ by {
        assert(list.deep_view()[j] == list[j]@);
    }
    None
}

/// Adds to `peers` the members other than `id` that it does not hold yet.
fn add_peers(peers: &mut Vec<u64>, members: &Vec<u64>, id: u64)
    requires
        old(peers)@.no_duplicates(),
    ensures
        final(peers)@.no_duplicates(),
        final(peers)@.to_set() == old(peers)@.to_set().union(members@.to_set().remove(id)),
{
    let mut k: usize = 0;
    assert(peers@.to_set() =~= old(peers)@.to_set().union(
        members@.take(0).to_set().remove(id),
    ));
    while k < members.len()
        invariant
            k <= members.len(),
            peers@.no_duplicates(),
            peers@.to_set() == old(peers)@.to_set().union(
                members@.take(k as int).to_set().remove(id),
            ),
        decreases members.len() - k,
    {
        let member = members[k];
        let ghost held = peers@;
        proof {
            assert(members@.take(k + 1) =~= members@.take(k as int).push(member));
            lemma_to_set_push(members@.take(k as int), member);
        }
        if member != id && position_of(peers, member).is_none() {
            peers.push(member);
            proof {
                lemma_to_set_push(held, member);
                lemma_push_no_duplicates(held, member);
            }
        }
        proof {
            assert(peers@.to_set() =~= old(peers)@.to_set().union(
                members@.take(k + 1).to_set().remove(id),
            ));
        }
        k = k + 1;
    }
    assert(members@.take(members.len() as int) =~= members@);
}

impl State {
    /// The numbers of the identities, in the order of the list.
    pub closed spec fn ids(&self) -> Seq<u64> {
        Seq::new(self.identities.len() as nat, |i: int| self.identities[i].id)
    }

    /// The identities, in the order of the list.
    pub closed spec fn identity_views(&self) -> Seq<IdentityView> {
        Seq::new(self.identities.len() as nat, |i: int| self.identities[i]@)
    }

    /// The names of the channels, in the order of the list.
    pub closed spec fn names(&self) -> Seq<Seq<char>> {
        Seq::new(self.channels.len() as nat, |i: int| self.channels[i].name@)
    }

    /// The channels, in the order of the list.
    pub closed spec fn channel_views(&self) -> Seq<ChannelView> {
        Seq::new(self.channels.len() as nat, |i: int| self.channels[i]@)
    }

    /// Nothing is listed twice: no identity, no channel, no channel of an
    /// identity, no member of a channel.
    pub closed spec fn listed_once(&self) -> bool {
        &&& self.ids().no_duplicates()
        &&& self.names().no_duplicates()
        &&& forall|i: int|
            0 <= i < self.identities.len() ==> (
            #[trigger] self.identities[i]).channels.deep_view().no_duplicates()
        &&& forall|i: int|
            0 <= i < self.channels.len() ==> (
            #[trigger] self.channels[i]).members@.no_duplicates()
    }

    /// The lists are well formed: nothing is listed twice, and what they
    /// mean is consistent.
    pub closed spec fn wf(&self) -> bool {
        self.listed_once() && self@.consistent()
    }

    /// Well-formed registries are consistent.
    pub proof fn lemma_wf_consistent(&self)
        requires
            self.wf(),
        ensures
            self@.consistent(),
    {
    }

    /// The identity at an index is in the view under its number.
    proof fn lemma_identity_at(&self, i: int)
        requires
            self.listed_once(),
            0 <= i < self.identities.len(),
        ensures
            self@.knows(self.identities[i].id),
            self@.identities[self.identities[i].id] == self.identities[i]@,
    {
        lemma_assoc_index(self.ids(), self.identity_views(), i);
    }

    /// An identity of the view stands at some index of the list.
    proof fn lemma_identity_of(&self, id: u64) -> (i: int)
        requires
            self@.knows(id),
        ensures
            0 <= i < self.identities.len(),
            self.identities[i].id == id,
            self@.identities[id] == self.identities[i]@,
    {
        lemma_assoc_key(self.ids(), self.identity_views(), id)
    }

    /// The channel at an index is in the view under its name.
    proof fn lemma_channel_at(&self, i: int)
        requires
            self.listed_once(),
            0 <= i < self.channels.len(),
        ensures
            self@.channels.dom().contains(self.channels[i].name@),
            self@.channels[self.channels[i].name@] == self.channels[i]@,
    {
        lemma_assoc_index(self.names(), self.channel_views(), i);
    }

    /// A channel of the view stands at some index of the list.
    proof fn lemma_channel_of(&self, name: Seq<char>) -> (i: int)
        requires
            self@.channels.dom().contains(name),
        ensures
            0 <= i < self.channels.len(),
            self.channels[i].name@ == name,
            self@.channels[name] == self.channels[i]@,
    {
        lemma_assoc_key(self.names(), self.channel_views(), name)
    }

    /// What changing the identity at an index, and nothing else, does to
    /// the view.
    proof fn lemma_identity_changed(&self, before: State, i: int)
        requires
            before.listed_once(),
            0 <= i < before.identities.len(),
            self.identities.len() == before.identities.len(),
            self.identities[i].id == before.identities[i].id,
            self.identities[i].channels.deep_view().no_duplicates(),
            forall|j: int|
                0 <= j < before.identities.len() && j != i ==> self.identities[j]
                    == before.identities[j],
            self.channels == before.channels,
        ensures
            self.listed_once(),
            self@.identities == before@.identities.insert(
                before.identities[i].id,
                self.identities[i]@,
            ),
            self@.channels == before@.channels,
    {
        assert(self.ids() =~= before.ids());
        assert(self.identity_views() =~= before.identity_views().update(i, self.identities[i]@));
        assert(self.names() =~= before.names());
        assert(self.channel_views() =~= before.channel_views());
        lemma_assoc_update(before.ids(), before.identity_views(), i, self.identities[i]@);
        assert forall|j: int| 0 <= j < self.identities.len() implies (
        #[trigger] self.identities[j]).channels.deep_view().no_duplicates() by {
            if j != i {
                assert(self.identities[j] == before.identities[j]);
            }
        }
    }

    /// What taking the identity at an index out of the list, and nothing
    /// else, does to the view.
    proof fn lemma_identity_removed(&self, before: State, i: int)
        requires
            before.listed_once(),
            0 <= i < before.identities.len(),
            self.identities@ == before.identities@.remove(i),
            self.channels == before.channels,
        ensures
            self.listed_once(),
            self@.identities == before@.identities.remove(before.identities[i].id),
            self@.channels == before@.channels,
    {
        assert(self.ids() =~= before.ids().remove(i));
        assert(self.identity_views() =~= before.identity_views().remove(i));
        assert(self.names() =~= before.names());
        assert(self.channel_views() =~= before.channel_views());
        lemma_assoc_remove(before.ids(), before.identity_views(), i);
        assert forall|j: int| 0 <= j < self.identities.len() implies (
        #[trigger] self.identities[j]).channels.deep_view().no_duplicates() by {
            let k = if j < i {
                j
            } else {
                j + 1
            };
            assert(self.identities[j] == before.identities[k]);
        }
    }

    /// What changing the channel at an index, and nothing else, does to the
    /// view.
    proof fn lemma_channel_changed(&self, before: State, c: int)
        requires
            before.listed_once(),
            0 <= c < before.channels.len(),
            self.channels.len() == before.channels.len(),
            self.channels[c].name@ == before.channels[c].name@,
            self.channels[c].members@.no_duplicates(),
            forall|j: int|
                0 <= j < before.channels.len() && j != c ==> self.channels[j] == before.channels[j],
            self.identities == before.identities,
        ensures
            self.listed_once(),
            self@.channels == before@.channels.insert(
                before.channels[c].name@,
                self.channels[c]@,
            ),
            self@.identities == before@.identities,
    {
        assert(self.names() =~= before.names());
        assert(self.channel_views() =~= before.channel_views().update(c, self.channels[c]@));
        assert(self.ids() =~= before.ids());
        assert(self.identity_views() =~= before.identity_views());
        lemma_assoc_update(before.names(), before.channel_views(), c, self.channels[c]@);
        assert forall|j: int| 0 <= j < self.channels.len() implies (
        #[trigger] self.channels[j]).members@.no_duplicates() by {
            if j != c {
                assert(self.channels[j] == before.channels[j]);
            }
        }
    }

    /// What one more channel at the end of the list, and nothing else, does
    /// to the view.
    proof fn lemma_channel_added(&self, before: State, channel: Channel)
        requires
            before.listed_once(),
            !before@.channels.dom().contains(channel.name@),
            channel.members@.no_duplicates(),
            self.channels@ == before.channels@.push(channel),
            self.identities == before.identities,
        ensures
            self.listed_once(),
            self@.channels == before@.channels.insert(channel.name@, channel@),
            self@.identities == before@.identities,
    {
        assert(self.names() =~= before.names().push(channel.name@));
        assert(self.channel_views() =~= before.channel_views().push(channel@));
        assert(self.ids() =~= before.ids());
        assert(self.identity_views() =~= before.identity_views());
        lemma_assoc_push(before.names(), before.channel_views(), channel.name@, channel@);
        assert forall|j: int| 0 <= j < self.channels.len() implies (
        #[trigger] self.channels[j]).members@.no_duplicates() by {
            if j < before.channels.len() {
                assert(self.channels[j] == before.channels[j]);
            }
        }
    }

    /// What taking the channel at an index out of the list, and nothing
    /// else, does to the view.
    proof fn lemma_channel_removed(&self, before: State, c: int)
        requires
            before.listed_once(),
            0 <= c < before.channels.len(),
            self.channels@ == before.channels@.remove(c),
            self.identities == before.identities,
        ensures
            self.listed_once(),
            self@.channels == before@.channels.remove(before.channels[c].name@),
            self@.identities == before@.identities,
    {
        assert(self.names() =~= before.names().remove(c));
        assert(self.channel_views() =~= before.channel_views().remove(c));
        assert(self.ids() =~= before.ids());
        assert(self.identity_views() =~= before.identity_views());
        lemma_assoc_remove(before.names(), before.channel_views(), c);
        assert forall|j: int| 0 <= j < self.channels.len() implies (
        #[trigger] self.channels[j]).members@.no_duplicates() by {
            let k = if j < c {
                j
            } else {
                j + 1
            };
            assert(self.channels[j] == before.channels[k]);
        }
    }

    /// Registries with nobody connected and no channel.
    pub fn new() -> (s: State)
        ensures
            s.wf(),
            s@ == StateView::empty(),
    {
        let s = State { identities: Vec::new(), channels: Vec::new() };
        proof {
            assert(s@.identities =~= Map::<u64, IdentityView>::empty());
            assert(s@.channels =~= Map::<Seq<char>, ChannelView>::empty());
            lemma_empty_consistent();
        }
        s
    }

    /// Takes in the client of a new connection: not registered, in no
    /// channel. Says whether the number was new; one that is known already
    /// changes nothing.
    pub fn connect(&mut self, id: u64) -> (added: bool)
        requires
            old(self).wf(),
        ensures
            final(self).wf(),
            final(self)@ == old(self)@.connect(id),
            added == !old(self)@.knows(id),
    {
        if self.find_identity(id).is_some() {
            return false;
        }
        let ghost before = *self;
        let fresh = Identity {
            id,
            nickname: None,
            username: None,
            mode: 0,
            realname: None,
            channels: Vec::new(),
        };
        self.identities.push(fresh);
        proof {
            assert(fresh.channels.deep_view() =~= Seq::<Seq<char>>::empty());
            assert(fresh@.channels =~= Set::<Seq<char>>::empty());
            assert(fresh@ == IdentityView::fresh());
            assert(self.ids() =~= before.ids().push(id));
            assert(self.identity_views() =~= before.identity_views().push(fresh@));
            assert(self.names() =~= before.names());
            assert(self.channel_views() =~= before.channel_views());
            lemma_assoc_push(before.ids(), before.identity_views(), id, fresh@);
            lemma_connect_consistent(before@, id);
        }
        true
    }

    /// Drops a client that never registered. Says whether it did; a
    /// registered client stays, and leaves by quitting.
    pub fn forget(&mut self, id: u64) -> (dropped: bool)
        requires
            old(self).wf(),
        ensures
            final(self).wf(),
            final(self)@ == old(self)@.forget(id),
            dropped == (old(self)@.knows(id) && !old(self)@.registered(id)),
    {
        let i = match self.find_identity(id) {
            Some(i) => i,
            None => {
                return false;
            },
        };
        if self.identities[i].is_registered() {
            return false;
        }
        let ghost before = *self;
        self.identities.remove(i);
        proof {
            assert(self.ids() =~= before.ids().remove(i as int));
            assert(self.identity_views() =~= before.identity_views().remove(i as int));
            assert(self.names() =~= before.names());
            assert(self.channel_views() =~= before.channel_views());
            lemma_assoc_remove(before.ids(), before.identity_views(), i as int);
            lemma_forget_consistent(before@, id);
            assert forall|j: int| 0 <= j < self.identities.len() implies (
            #[trigger] self.identities[j]).channels.deep_view().no_duplicates() by {
                let k = if j < i {
                    j
                } else {
                    j + 1
                };
                assert(self.identities[j] == before.identities[k]);
            }
        }
        true
    }

    /// Applies one command that came from the identity `id`: the one place
    /// where a command changes the registries. The result holds the replies
    /// to deliver, in no order that matters, or the failure; a command that
    /// fails changes nothing. No reply is there twice, unless the command
    /// is a `JOIN` that names a channel twice.
    pub fn apply(&mut self, id: u64, command: Command) -> (result: Result<Vec<Reply>, IrcError>)
        requires
            old(self).wf(),
        ensures
            final(self).wf(),
            final(self)@ == old(self)@.apply(id, command@).state,
            result_view(result) == old(self)@.apply(id, command@).result,
            result is Ok && !command@.repeats_a_channel() ==> each_once(result->Ok_0@),
    {
        let Command { prefix, kind } = command;
        match kind {
            CommandKind::Join { channels, keys } => self.join(id, channels, keys),
            CommandKind::Nick { nickname } => self.nick(id, nickname),
            CommandKind::User { username, mode, full_name } => self.user(
                id,
                username,
                mode,
                full_name,
            ),
            CommandKind::Ping { source_server, target_server } => self.ping(
                id,
                source_server,
                target_server,
            ),
            CommandKind::PrivMsg { message_target, message_text } => self.privmsg(
                id,
                message_target,
                message_text,
            ),
            CommandKind::Quit { quit_message } => self.quit(id, quit_message),
        }
    }

    /// `NICK` from the identity `id`.
    fn nick(&mut self, id: u64, nickname: String) -> (result: Result<Vec<Reply>, IrcError>)
        requires
            old(self).wf(),
        ensures
            final(self).wf(),
            final(self)@ == old(self)@.nick(id, nickname@).state,
            result_view(result) == old(self)@.nick(id, nickname@).result,
            result is Ok ==> each_once(result->Ok_0@),
    {
        let i = match self.find_identity(id) {
            Some(i) => i,
            None => {
                return Err(IrcError::NotRegistered);
            },
        };
        if self.nick_taken(id, nickname.as_str()) {
            return Err(IrcError::NicknameInUse { nickname });
        }
        let ghost before = *self;
        self.identities[i].nickname = Some(nickname);
        proof {
            self.lemma_identity_changed(before, i as int);
            assert(self@ =~= before@.nick(id, nickname@).state);
            lemma_nick_consistent(before@, id, nickname@);
            lemma_told_empty();
        }
        Ok(Vec::new())
    }

    /// `USER` from the identity `id`.
    fn user(&mut self, id: u64, username: String, mode: u8, realname: String) -> (result: Result<
        Vec<Reply>,
        IrcError,
    >)
        requires
            old(self).wf(),
        ensures
            final(self).wf(),
            final(self)@ == old(self)@.user(id, username@, mode, realname@).state,
            result_view(result) == old(self)@.user(id, username@, mode, realname@).result,
            result is Ok ==> each_once(result->Ok_0@),
    {
        let i = match self.find_identity(id) {
            Some(i) => i,
            None => {
                return Err(IrcError::NotRegistered);
            },
        };
        if self.identities[i].is_registered() {
            return Err(IrcError::AlreadyRegistered);
        }
        if let Some(held) = &self.identities[i].nickname {
            if self.nick_taken(id, held.as_str()) {
                return Err(IrcError::NicknameInUse { nickname: held.clone() });
            }
        }
        let ghost before = *self;
        self.identities[i].username = Some(username);
        self.identities[i].mode = mode;
        self.identities[i].realname = Some(realname);
        proof {
            self.lemma_identity_changed(before, i as int);
            assert(self@ =~= before@.user(id, username@, mode, realname@).state);
            lemma_user_consistent(before@, id, username@, mode, realname@);
            lemma_told_empty();
        }
        Ok(Vec::new())
    }

    /// `JOIN` from the identity `id`.
    fn join(
        &mut self,
        id: u64,
        channels: Vec<String>,
        keys: Option<Vec<String>>,
    ) -> (result: Result<Vec<Reply>, IrcError>)
        requires
            old(self).wf(),
        ensures
            final(self).wf(),
            final(self)@ == old(self)@.join(id, channels.deep_view(), keys.deep_view()).state,
            result_view(result) == old(self)@.join(
                id,
                channels.deep_view(),
                keys.deep_view(),
            ).result,
            result is Ok && channels.deep_view().no_duplicates() ==> each_once(result->Ok_0@),
    {
        let i = match self.find_identity(id) {
            Some(i) => i,
            None => {
                return Err(IrcError::NotRegistered);
            },
        };
        if !self.identities[i].is_registered() {
            return Err(IrcError::NotRegistered);
        }
        if channels.len() == 1 && same_text(channels[0].as_str(), "0") {
            assert(channels.deep_view() =~= seq!["0"@]);
            let (replies, _) = self.leave_all(i);
            return Ok(replies);
        }
        proof {
            if channels.deep_view() == seq!["0"@] {
                assert(channels.deep_view().len() == 1);
                assert(channels.deep_view()[0] == "0"@);
            }
        }
        Ok(self.join_each(i, &channels, &keys))
    }

    /// The identity at index `i`, which is registered, enters the channels
    /// one after the other.
    fn join_each(
        &mut self,
        i: usize,
        channels: &Vec<String>,
        keys: &Option<Vec<String>>,
    ) -> (replies: Vec<Reply>)
        requires
            old(self).wf(),
            i < old(self).identities.len(),
            old(self).identities[i as int]@.registered(),
        ensures
            final(self).wf(),
            (final(self)@, told(replies@)) == old(self)@.join_first(
                old(self).identities[i as int].id,
                channels.deep_view(),
                keys.deep_view(),
                channels.len() as nat,
            ),
            channels.deep_view().no_duplicates() ==> each_once(replies@),
    {
        let ghost s0 = self@;
        let ghost id = self.identities[i as int].id;
        let mut replies: Vec<Reply> = Vec::new();
        let mut k: usize = 0;
        proof {
            lemma_told_empty();
        }
        while k < channels.len()
            invariant
                self.wf(),
                k <= channels.len(),
                i < self.identities.len(),
                self.identities[i as int].id == id,
                self.identities[i as int]@.registered(),
                (self@, told(replies@)) == s0.join_first(
                    id,
                    channels.deep_view(),
                    keys.deep_view(),
                    k as nat,
                ),
                forall|r: int|
                    0 <= r < replies@.len() ==> exists|j: int|
                        0 <= j < k && (#[trigger] replies@[r])@.notice.concerns(channels[j]@),
                channels.deep_view().take(k as int).no_duplicates() ==> each_once(replies@),
            decreases channels.len() - k,
        {
            let ghost heard = replies@;
            let key = match keys {
                Some(keys) => if k < keys.len() {
                    Some(keys[k].clone())
                } else {
                    None
                },
                None => None,
            };
            proof {
                assert(key.deep_view() == key_at(keys.deep_view(), k as int));
                assert(channels.deep_view()[k as int] == channels[k as int]@);
            }
            proof {
                let names = channels.deep_view();
                if names.take(k + 1).no_duplicates() {
                    assert forall|a: int, b: int|
                        0 <= a < k && 0 <= b < k && a != b implies names.take(k as int)[a]
                        != names.take(k as int)[b] by {
                        assert(names.take(k + 1)[a] != names.take(k + 1)[b]);
                    }
                    assert forall|r: int| 0 <= r < heard.len() implies !(
                    #[trigger] heard[r])@.notice.concerns(channels[k as int]@) by {
                        let j = choose|j: int|
                            0 <= j < k && heard[r]@.notice.concerns(channels[j]@);
                        assert(names.take(k + 1)[j] != names.take(k + 1)[k as int]);
                    }
                }
            }
            self.join_one(i, channels[k].as_str(), key, &mut replies);
            proof {
                assert forall|r: int| 0 <= r < replies@.len() implies exists|j: int|
                    0 <= j < k + 1 && (#[trigger] replies@[r])@.notice.concerns(channels[j]@) by {
                    if r < heard.len() {
                        assert(replies@.take(heard.len() as int)[r] == heard[r]);
                        let j = choose|j: int|
                            0 <= j < k && heard[r]@.notice.concerns(channels[j]@);
                        assert(replies@[r]@.notice.concerns(channels[j]@));
                    } else {
                        assert(replies@[r]@.notice.concerns(channels[k as int]@));
                    }
                }
            }
            k = k + 1;
        }
        assert(channels.deep_view().take(channels.len() as int) =~= channels.deep_view());
        replies
    }

    /// The identity at index `i`, which is registered, enters the channel
    /// `name`, offering `key`, as one step of a `JOIN`.
    fn join_one(&mut self, i: usize, name: &str, key: Option<String>, replies: &mut Vec<Reply>)
        requires
            old(self).wf(),
            i < old(self).identities.len(),
            old(self).identities[i as int]@.registered(),
        ensures
            final(self).wf(),
            final(self).identities.len() == old(self).identities.len(),
            final(self).identities[i as int].id == old(self).identities[i as int].id,
            final(self).identities[i as int]@.registered(),
            final(self)@ == old(self)@.join_one(
                old(self).identities[i as int].id,
                name@,
                key.deep_view(),
            ).0,
            told(final(replies)@) == told(old(replies)@).union(
                old(self)@.join_one(old(self).identities[i as int].id, name@, key.deep_view()).1,
            ),
            final(replies)@.len() >= old(replies)@.len(),
            final(replies)@.take(old(replies)@.len() as int) == old(replies)@,
            forall|k: int|
                old(replies)@.len() <= k < final(replies)@.len() ==> (
                #[trigger] final(replies)@[k])@.notice.concerns(name@),
            each_once(old(replies)@) && (forall|k: int|
                0 <= k < old(replies)@.len() ==> !(
                #[trigger] old(replies)@[k])@.notice.concerns(name@)) ==> each_once(
                final(replies)@,
            ),
    {
        let id = self.identities[i].id;
        let nickname = self.nickname_at(i);
        let ghost before = *self;
        let ghost heard = replies@;
        assert(heard.take(heard.len() as int) =~= heard);
        let ghost s = before@;
        let ghost offered = key.deep_view();
        let ghost said = told(replies@);
        proof {
            before.lemma_identity_at(i as int);
            lemma_join_one_consistent(s, id, name@, offered);
        }
        let found = self.find_channel(name);
        match found {
            None => {
                let mut members: Vec<u64> = Vec::new();
                members.push(id);
                let channel = Channel { name: name.to_owned(), key, members };
                self.channels.push(channel);
                let ghost mid = *self;
                self.identities[i].channels.push(name.to_owned());
                proof {
                    assert(channel.members@ =~= Seq::<u64>::empty().push(id));
                    lemma_to_set_push(Seq::<u64>::empty(), id);
                    assert(Seq::<u64>::empty().to_set() =~= Set::<u64>::empty());
                    assert(channel@.members =~= set![id]);
                    mid.lemma_channel_added(before, channel);
                    let was = before.identities[i as int].channels.deep_view();
                    let now = self.identities[i as int].channels.deep_view();
                    assert(now =~= was.push(name@));
                    assert(!s.occupies(id, name@));
                    assert(!was.to_set().contains(name@));
                    lemma_push_no_duplicates(was, name@);
                    lemma_to_set_push(was, name@);
                    self.lemma_identity_changed(mid, i as int);
                    assert(self@ =~= s.enter(id, name@, offered));
                }
            },
            Some(c) => {
                let ghost listed = before.channels[c as int].members@;
                if position_of(&self.channels[c].members, id).is_some() {
                    proof {
                        assert(listed.contains(id));
                        assert(s.has_member(name@, id));
                        assert(said =~= said.union(Set::<ReplyView>::empty()));
                    }
                    return ;
                }
                let refused = match &self.channels[c].key {
                    Some(needed) => match &key {
                        Some(given) => !same_text(needed.as_str(), given.as_str()),
                        None => true,
                    },
                    None => false,
                };
                if refused {
                    let refusal = IrcError::BadChannelKey { channel: name.to_owned() };
                    let reply = Reply { to: id, notice: Notice::Failed(refusal) };
                    proof {
                        lemma_told_push(replies@, reply);
                        assert(said.insert(reply@) =~= said.union(set![reply@]));
                    }
                    replies.push(reply);
                    assert(replies@.take(heard.len() as int) =~= heard);
                    return ;
                }
                self.channels[c].members.push(id);
                let ghost mid = *self;
                self.identities[i].channels.push(name.to_owned());
                proof {
                    let now_listed = mid.channels[c as int].members@;
                    assert(now_listed =~= listed.push(id));
                    lemma_push_no_duplicates(listed, id);
                    lemma_to_set_push(listed, id);
                    mid.lemma_channel_changed(before, c as int);
                    let was = before.identities[i as int].channels.deep_view();
                    let now = self.identities[i as int].channels.deep_view();
                    assert(now =~= was.push(name@));
                    assert(!s.has_member(name@, id));
                    assert(!s.occupies(id, name@));
                    assert(!was.to_set().contains(name@));
                    lemma_push_no_duplicates(was, name@);
                    lemma_to_set_push(was, name@);
                    self.lemma_identity_changed(mid, i as int);
                    assert(self@ =~= s.enter(id, name@, offered));
                }
            },
        }
        let c = match self.find_channel(name) {
            Some(c) => c,
            None => vstd::pervasive::unreached(),
        };
        let notice = Notice::Joined { nickname, channel: name.to_owned() };
        assert(self.channels[c as int].members@.no_duplicates());
        tell_each(&self.channels[c].members, None, &notice, replies);
        proof {
            let after = s.enter(id, name@, offered);
            let listed = self.channels[c as int].members@;
            assert(notices_for(listed, None, notice@) =~= after.joined_notices(id, name@));
            assert(notice@.concerns(name@));
        }
    }

    /// The identity at index `i`, which is registered, leaves all its
    /// channels. Gives the notices of that for the members, and the
    /// identities that were in a channel with it, each once.
    fn leave_all(&mut self, i: usize) -> (r: (Vec<Reply>, Vec<u64>))
        requires
            old(self).wf(),
            i < old(self).identities.len(),
            old(self).identities[i as int]@.registered(),
        ensures
            final(self).wf(),
            final(self).identities.len() == old(self).identities.len(),
            final(self).identities[i as int].id == old(self).identities[i as int].id,
            final(self).identities[i as int].nickname == old(self).identities[i as int].nickname,
            final(self)@ == old(self)@.leave(
                old(self).identities[i as int].id,
                old(self)@.identities[old(self).identities[i as int].id].channels,
            ),
            told(r.0@) == old(self)@.parted_notices(old(self).identities[i as int].id),
            each_once(r.0@),
            r.1@.no_duplicates(),
            r.1@.to_set() == old(self)@.peers_in(
                old(self).identities[i as int].id,
                old(self)@.identities[old(self).identities[i as int].id].channels,
            ),
    {
        let id = self.identities[i].id;
        let nickname = self.nickname_at(i);
        let mut replies: Vec<Reply> = Vec::new();
        let mut peers: Vec<u64> = Vec::new();
        let ghost s0 = self@;
        let ghost count = self.identities.len();
        let ghost held = self.identities[i as int].nickname;
        let ghost mut gone: Set<Seq<char>> = Set::empty();
        proof {
            self.lemma_identity_at(i as int);
            lemma_leave_none(s0, id);
            lemma_told_empty();
            assert(told(replies@) =~= Set::new(
                |r: ReplyView|
                    r.notice matches NoticeView::Parted { nickname: left, channel } && left
                        == nickname@ && gone.contains(channel) && s0.has_member(channel, r.to),
            ));
            assert(peers@.to_set() =~= s0.peers_in(id, gone));
        }
        while self.identities[i].channels.len() > 0
            invariant
                self.wf(),
                i < self.identities.len(),
                self.identities.len() == count,
                self.identities[i as int].id == id,
                self.identities[i as int].nickname == held,
                self.identities[i as int]@.registered(),
                s0.consistent(),
                s0.registered(id),
                s0.identities[id].nickname == Some(nickname@),
                gone.subset_of(s0.identities[id].channels),
                self@ == s0.leave(id, gone),
                told(replies@) == Set::new(
                    |r: ReplyView|
                        r.notice matches NoticeView::Parted { nickname: left, channel } && left
                            == nickname@ && gone.contains(channel) && s0.has_member(channel, r.to),
                ),
                each_once(replies@),
                peers@.no_duplicates(),
                peers@.to_set() == s0.peers_in(id, gone),
            decreases self.identities[i as int].channels.len(),
        {
            let n: usize = self.identities[i].channels.len();
            let name = self.identities[i].channels[n - 1].clone();
            let ghost cur = self@;
            let ghost said = told(replies@);
            let ghost known = peers@.to_set();
            proof {
                self.lemma_identity_at(i as int);
                let own = self.identities[i as int].channels.deep_view();
                assert(own[n - 1] == name@);
                assert(own.contains(name@));
                assert(cur.occupies(id, name@));
                assert(cur.has_member(name@, id));
                assert(s0.identities[id].channels.contains(name@));
                assert(!gone.contains(name@));
                assert(cur.channels[name@] == s0.channels[name@]);
            }
            let c = match self.find_channel(name.as_str()) {
                Some(c) => c,
                None => vstd::pervasive::unreached(),
            };
            let notice = Notice::Parted { nickname: nickname.clone(), channel: name.clone() };
            proof {
                assert(self.channels[c as int].members@.no_duplicates());
                assert forall|k: int| 0 <= k < replies@.len() implies (
                #[trigger] replies@[k])@.notice != notice@ by {
                    assert(said.contains(replies@[k]@));
                }
            }
            tell_each(&self.channels[c].members, None, &notice, &mut replies);
            add_peers(&mut peers, &self.channels[c].members, id);
            let ghost listed = self.channels[c as int].members@;
            self.leave_last(i, c);
            proof {
                lemma_leave_one_more(s0, id, gone, name@);
                let more = gone.insert(name@);
                assert forall|r: ReplyView|
                    (said.contains(r) || notices_for(listed, None, notice@).contains(r)) <==> (
                    r.notice matches NoticeView::Parted { nickname: left, channel } && left
                        == nickname@ && more.contains(channel) && s0.has_member(
                        channel,
                        r.to,
                    )) by {
                    assert(listed.contains(r.to) <==> listed.to_set().contains(r.to));
                }
                assert(told(replies@) =~= Set::new(
                    |r: ReplyView|
                        r.notice matches NoticeView::Parted { nickname: left, channel } && left
                            == nickname@ && more.contains(channel) && s0.has_member(channel, r.to),
                ));
                assert forall|other: u64|
                    (known.contains(other) || listed.to_set().remove(id).contains(other))
                        <==> s0.peers_in(id, more).contains(other) by {
                    if known.contains(other) {
                        let ch = choose|ch: Seq<char>|
                            gone.contains(ch) && #[trigger] s0.has_member(ch, other);
                        assert(more.contains(ch) && s0.has_member(ch, other));
                    }
                    if listed.to_set().remove(id).contains(other) {
                        assert(more.contains(name@) && s0.has_member(name@, other));
                    }
                    if s0.peers_in(id, more).contains(other) {
                        let ch = choose|ch: Seq<char>|
                            more.contains(ch) && #[trigger] s0.has_member(ch, other);
                        if ch != name@ {
                            assert(gone.contains(ch) && s0.has_member(ch, other));
                        }
                    }
                }
                assert(peers@.to_set() =~= s0.peers_in(id, more));
                gone = more;
            }
        }
        proof {
            self.lemma_identity_at(i as int);
            let own = self.identities[i as int].channels.deep_view();
            assert(own =~= Seq::<Seq<char>>::empty());
            assert(own.to_set() =~= Set::<Seq<char>>::empty());
            assert forall|ch: Seq<char>|
                s0.identities[id].channels.contains(ch) implies gone.contains(ch) by {
                if !gone.contains(ch) {
                    assert(s0.identities[id].channels.difference(gone).contains(ch));
                    assert(self@.identities[id].channels.contains(ch));
                }
            }
            assert(gone =~= s0.identities[id].channels);
            assert forall|r: ReplyView|
                told(replies@).contains(r) <==> s0.parted_notices(id).contains(r) by {
                if let NoticeView::Parted { nickname: left, channel } = r.notice {
                    assert(s0.occupies(id, channel) <==> s0.has_member(channel, id));
                }
            }
            assert(told(replies@) =~= s0.parted_notices(id));
        }
        (replies, peers)
    }

    /// The identity at index `i` leaves the channel at index `c`, which is
    /// the last of its own list. A channel left without members goes.
    fn leave_last(&mut self, i: usize, c: usize)
        requires
            old(self).wf(),
            i < old(self).identities.len(),
            c < old(self).channels.len(),
            old(self).identities[i as int].channels.len() > 0,
            old(self).identities[i as int].channels@.last()@ == old(self).channels[c as int].name@,
        ensures
            final(self).wf(),
            final(self).identities.len() == old(self).identities.len(),
            final(self).identities[i as int].id == old(self).identities[i as int].id,
            final(self).identities[i as int].nickname == old(self).identities[i as int].nickname,
            final(self).identities[i as int].username == old(self).identities[i as int].username,
            final(self).identities[i as int].channels@ == old(
                self,
            ).identities[i as int].channels@.drop_last(),
            final(self)@ == old(self)@.leave(
                old(self).identities[i as int].id,
                set![old(self).channels[c as int].name@],
            ),
    {
        let id = self.identities[i].id;
        let ghost before = *self;
        let ghost s = before@;
        let ghost name = before.channels[c as int].name@;
        let ghost was = before.identities[i as int].channels.deep_view();
        let ghost listed = before.channels[c as int].members@;
        proof {
            before.lemma_identity_at(i as int);
            before.lemma_channel_at(c as int);
            assert(was[was.len() - 1] == name);
            assert(was.contains(name));
            assert(s.occupies(id, name));
            assert(s.has_member(name, id));
            assert(listed.contains(id));
            lemma_leave_consistent(s, id, set![name]);
        }
        self.identities[i].channels.pop();
        let ghost mid = *self;
        proof {
            let now = mid.identities[i as int].channels.deep_view();
            assert(now =~= was.remove(was.len() - 1));
            lemma_to_set_remove(was, was.len() - 1);
            mid.lemma_identity_changed(before, i as int);
        }
        let p = match position_of(&self.channels[c].members, id) {
            Some(p) => p,
            None => vstd::pervasive::unreached(),
        };
        self.channels[c].members.remove(p);
        let ghost thinned = *self;
        proof {
            lemma_to_set_remove(listed, p as int);
            thinned.lemma_channel_changed(mid, c as int);
        }
        let ghost remaining = thinned.channels[c as int].members@;
        if self.channels[c].members.len() == 0 {
            self.channels.remove(c);
            proof {
                self.lemma_channel_removed(thinned, c as int);
                assert(!s.channels[name].has_other(id)) by {
                    if s.channels[name].has_other(id) {
                        let other = choose|other: u64|
                            other != id && #[trigger] s.channels[name].members.contains(other);
                        assert(remaining.to_set().contains(other));
                        assert(remaining.contains(other));
                    }
                }
                assert(self@.channels =~= s.leave(id, set![name]).channels);
            }
        } else {
            proof {
                assert(remaining.contains(remaining[0]));
                assert(remaining.to_set().contains(remaining[0]));
                assert(s.channels[name].members.contains(remaining[0]));
                assert(s.channels[name].has_other(id));
                assert(self@.channels =~= s.leave(id, set![name]).channels);
            }
        }
        proof {
            let left = s.leave(id, set![name]);
            assert(self@.identities[id].channels =~= left.identities[id].channels);
            assert(self@.identities =~= s.leave(id, set![name]).identities);
        }
    }

    /// `PING` from the identity `id`.
    fn ping(&self, id: u64, source: String, target: Option<String>) -> (result: Result<
        Vec<Reply>,
        IrcError,
    >)
        requires
            self.wf(),
        ensures
            result_view(result) == self@.ping(id, source@, target.deep_view()).result,
            result is Ok ==> each_once(result->Ok_0@),
    {
        if !self.is_registered(id) {
            return Err(IrcError::NotRegistered);
        }
        let mut replies: Vec<Reply> = Vec::new();
        let reply = Reply { to: id, notice: Notice::Pong { source, target } };
        replies.push(reply);
        proof {
            lemma_told_empty();
            lemma_told_push(Seq::<Reply>::empty(), reply);
            assert(told(replies@) =~= set![reply@]);
        }
        Ok(replies)
    }

    /// `PRIVMSG` from the identity `id`.
    fn privmsg(&self, id: u64, target: String, text: String) -> (result: Result<
        Vec<Reply>,
        IrcError,
    >)
        requires
            self.wf(),
        ensures
            result_view(result) == self@.privmsg(id, target@, text@).result,
            result is Ok ==> each_once(result->Ok_0@),
    {
        let i = match self.find_identity(id) {
            Some(i) => i,
            None => {
                return Err(IrcError::NotRegistered);
            },
        };
        if !self.identities[i].is_registered() {
            return Err(IrcError::NotRegistered);
        }
        if text.as_str().unicode_len() == 0 {
            return Err(IrcError::NoTextToSend);
        }
        let sender = self.nickname_at(i);
        let mut replies: Vec<Reply> = Vec::new();
        proof {
            lemma_told_empty();
        }
        let ghost s = self@;
        if let Some(c) = self.find_channel(target.as_str()) {
            if position_of(&self.channels[c].members, id).is_none() {
                return Err(IrcError::CannotSendToChan { channel: target });
            }
            let notice = Notice::Message { sender, recipient: target, text };
            assert(self.channels[c as int].members@.no_duplicates());
            tell_each(&self.channels[c].members, Some(id), &notice, &mut replies);
            proof {
                let listed = self.channels[c as int].members@;
                assert(notices_for(listed, Some(id), notice@) =~= Set::new(
                    |r: ReplyView|
                        r.notice == notice@ && r.to != id && s.has_member(target@, r.to),
                ));
                assert(told(replies@) =~= notices_for(listed, Some(id), notice@));
            }
            return Ok(replies);
        }
        if let Some(h) = self.find_holder(target.as_str()) {
            let to = self.identities[h].id;
            let reply = Reply { to, notice: Notice::Message { sender, recipient: target, text } };
            replies.push(reply);
            proof {
                lemma_told_push(Seq::<Reply>::empty(), reply);
                assert forall|r: ReplyView|
                    told(replies@).contains(r) <==> (r.notice == reply@.notice && s.holds(
                        r.to,
                        target@,
                    )) by {
                    if r.notice == reply@.notice && s.holds(r.to, target@) {
                        assert(s.holds(to, target@));
                    }
                }
                assert(told(replies@) =~= Set::new(
                    |r: ReplyView| r.notice == reply@.notice && s.holds(r.to, target@),
                ));
            }
            return Ok(replies);
        }
        let n: usize = target.as_str().unicode_len();
        let sigil = n > 0 && {
            let first = target.as_str().get_char(0);
            first == '#' || first == '&' || first == '+' || first == '!'
        };
        if sigil {
            Err(IrcError::NoSuchChannel { channel: target })
        } else {
            Err(IrcError::NoSuchNick { nickname: target })
        }
    }

    /// `QUIT` from the identity `id`.
    fn quit(&mut self, id: u64, message: Option<String>) -> (result: Result<Vec<Reply>, IrcError>)
        requires
            old(self).wf(),
        ensures
            final(self).wf(),
            final(self)@ == old(self)@.quit(id, message.deep_view()).state,
            result_view(result) == old(self)@.quit(id, message.deep_view()).result,
            result is Ok ==> each_once(result->Ok_0@),
    {
        let i = match self.find_identity(id) {
            Some(i) => i,
            None => {
                return Err(IrcError::NotRegistered);
            },
        };
        if !self.identities[i].is_registered() {
            return Err(IrcError::NotRegistered);
        }
        let ghost s = self@;
        let nickname = self.nickname_at(i);
        let (_, peers) = self.leave_all(i);
        let ghost left = *self;
        self.identities.remove(i);
        proof {
            self.lemma_identity_removed(left, i as int);
            lemma_quit_consistent(s, id, message.deep_view());
            assert(self@ =~= s.quit(id, message.deep_view()).state);
        }
        let notice = Notice::Quit { nickname, message };
        let mut replies: Vec<Reply> = Vec::new();
        tell_each(&peers, None, &notice, &mut replies);
        proof {
            lemma_told_empty();
            let own = s.identities[id].channels;
            assert forall|r: ReplyView|
                notices_for(peers@, None, notice@).contains(r) <==> (r.notice == notice@ && r.to
                    != id && s.share_channel(id, r.to)) by {
                assert(peers@.contains(r.to) <==> peers@.to_set().contains(r.to));
                if s.peers_in(id, own).contains(r.to) {
                    let ch = choose|ch: Seq<char>|
                        own.contains(ch) && #[trigger] s.has_member(ch, r.to);
                    assert(s.occupies(id, ch));
                    assert(s.has_member(ch, id) && s.has_member(ch, r.to));
                }
                if r.to != id && s.share_channel(id, r.to) {
                    let ch = choose|ch: Seq<char>| #[trigger]
                        s.has_member(ch, id) && s.has_member(ch, r.to);
                    assert(s.occupies(id, ch));
                    assert(own.contains(ch) && s.has_member(ch, r.to));
                }
            }
            assert(told(replies@) =~= Set::new(
                |r: ReplyView|
                    r.notice == notice@ && r.to != id && s.share_channel(id, r.to),
            ));
        }
        Ok(replies)
    }

    /// Where in the list the identity with this number stands.
    fn find_identity(&self, id: u64) -> (r: Option<usize>)
        requires
            self.listed_once(),
        ensures
            r is Some <==> self@.knows(id),
            r matches Some(i) ==> i < self.identities.len() && self.identities[i as int].id == id
                && self@.identities[id] == self.identities[i as int]@,
    {
        let mut i: usize = 0;
        while i < self.identities.len()
            invariant
                self.listed_once(),
                i <= self.identities.len(),
                forall|j: int| 0 <= j < i ==> self.identities[j].id != id,
            decreases self.identities.len() - i,
        {
            if self.identities[i].id == id {
                proof {
                    self.lemma_identity_at(i as int);
                }
                return Some(i);
            }
            i = i + 1;
        }
        proof {
            if self@.knows(id) {
                let j = self.lemma_identity_of(id);
            }
        }
        None
    }

    /// Where in the list the channel with this name stands.
    fn find_channel(&self, name: &str) -> (r: Option<usize>)
        requires
            self.listed_once(),
        ensures
            r is Some <==> self@.channels.dom().contains(name@),
            r matches Some(i) ==> i < self.channels.len() && self.channels[i as int].name@ == name@
                && self@.channels[name@] == self.channels[i as int]@,
    {
        let mut i: usize = 0;
        while i < self.channels.len()
            invariant
                self.listed_once(),
                i <= self.channels.len(),
                forall|j: int| 0 <= j < i ==> self.channels[j].name@ != name@,
            decreases self.channels.len() - i,
        {
            if same_text(self.channels[i].name.as_str(), name) {
                proof {
                    self.lemma_channel_at(i as int);
                }
                return Some(i);
            }
            i = i + 1;
        }
        proof {
            if self@.channels.dom().contains(name@) {
                let j = self.lemma_channel_of(name@);
            }
        }
        None
    }

    /// Whether a registered identity other than `id` holds the nickname.
    fn nick_taken(&self, id: u64, nickname: &str) -> (taken: bool)
        requires
            self.listed_once(),
        ensures
            taken == self@.nick_in_use(id, nickname@),
    {
        let mut i: usize = 0;
        while i < self.identities.len()
            invariant
                self.listed_once(),
                i <= self.identities.len(),
                forall|j: int|
                    0 <= j < i ==> !(self.identities[j].id != id && #[trigger] self@.holds(
                        self.identities[j].id,
                        nickname@,
                    )),
            decreases self.identities.len() - i,
        {
            proof {
                self.lemma_identity_at(i as int);
            }
            let other = &self.identities[i];
            if other.id != id && other.is_registered() {
                let same = match &other.nickname {
                    Some(held) => same_text(held.as_str(), nickname),
                    None => false,
                };
                if same {
                    assert(self@.holds(other.id, nickname@));
                    return true;
                }
            }
            i = i + 1;
        }
        proof {
            if self@.nick_in_use(id, nickname@) {
                let other = choose|other: u64| other != id && #[trigger] self@.holds(
                    other,
                    nickname@,
                );
                let j = self.lemma_identity_of(other);
                assert(self@.holds(self.identities[j].id, nickname@));
            }
        }
        false
    }

    /// Where in the list the registered identity that holds the nickname
    /// stands.
    fn find_holder(&self, nickname: &str) -> (r: Option<usize>)
        requires
            self.listed_once(),
        ensures
            r is Some <==> exists|other: u64| #[trigger] self@.holds(other, nickname@),
            r matches Some(i) ==> i < self.identities.len() && self@.holds(
                self.identities[i as int].id,
                nickname@,
            ),
    {
        let mut i: usize = 0;
        while i < self.identities.len()
            invariant
                self.listed_once(),
                i <= self.identities.len(),
                forall|j: int|
                    0 <= j < i ==> !#[trigger] self@.holds(self.identities[j].id, nickname@),
            decreases self.identities.len() - i,
        {
            proof {
                self.lemma_identity_at(i as int);
            }
            let other = &self.identities[i];
            if other.is_registered() {
                let same = match &other.nickname {
                    Some(held) => same_text(held.as_str(), nickname),
                    None => false,
                };
                if same {
                    assert(self@.holds(other.id, nickname@));
                    return Some(i);
                }
            }
            i = i + 1;
        }
        proof {
            if exists|other: u64| #[trigger] self@.holds(other, nickname@) {
                let other = choose|other: u64| #[trigger] self@.holds(other, nickname@);
                let j = self.lemma_identity_of(other);
                assert(self@.holds(self.identities[j].id, nickname@));
            }
        }
        None
    }

    /// The nickname of the registered identity at an index.
    fn nickname_at(&self, i: usize) -> (nickname: String)
        requires
            i < self.identities.len(),
            self.identities[i as int]@.registered(),
        ensures
            Some(nickname@) == self.identities[i as int]@.nickname,
    {
        match &self.identities[i].nickname {
            Some(nickname) => nickname.clone(),
            None => vstd::pervasive::unreached(),
        }
    }

    /// Whether an identity with this number is connected.
    pub fn knows(&self, id: u64) -> (r: bool)
        requires
            self.wf(),
        ensures
            r == self@.knows(id),
    {
        self.find_identity(id).is_some()
    }

    /// Whether the identity is connected and registered.
    pub fn is_registered(&self, id: u64) -> (r: bool)
        requires
            self.wf(),
        ensures
            r == self@.registered(id),
    {
        match self.find_identity(id) {
            Some(i) => self.identities[i].is_registered(),
            None => false,
        }
    }

    /// The nickname of the identity, if it is connected and has one.
    pub fn nickname_of(&self, id: u64) -> (r: Option<String>)
        requires
            self.wf(),
        ensures
            r.deep_view() == if self@.knows(id) {
                self@.identities[id].nickname
            } else {
                None
            },
    {
        match self.find_identity(id) {
            Some(i) => copy_of(&self.identities[i].nickname),
            None => None,
        }
    }

    /// Whether a channel of this name exists.
    pub fn has_channel(&self, name: &str) -> (r: bool)
        requires
            self.wf(),
        ensures
            r == self@.channels.dom().contains(name@),
    {
        self.find_channel(name).is_some()
    }

    /// Whether the identity lists the channel among its own.
    pub fn occupies(&self, id: u64, channel: &str) -> (r: bool)
        requires
            self.wf(),
        ensures
            r == self@.occupies(id, channel@),
    {
        match self.find_identity(id) {
            Some(i) => {
                let at = position_of_name(&self.identities[i].channels, channel);
                proof {
                    let names = self.identities[i as int].channels.deep_view();
                    if at is Some {
                        assert(names[at->0 as int] == channel@);
                    }
                }
                at.is_some()
            },
            None => false,
        }
    }

    /// Whether the channel lists the identity among its members.
    pub fn has_member(&self, channel: &str, id: u64) -> (r: bool)
        requires
            self.wf(),
        ensures
            r == self@.has_member(channel@, id),
    {
        match self.find_channel(channel) {
            Some(c) => position_of(&self.channels[c].members, id).is_some(),
            None => false,
        }
    }

    /// A copy of every identity, in no order that matters.
    pub fn identities(&self) -> (copies: Vec<Identity>)
        requires
            self.wf(),
        ensures
            copies.len() == self@.identities.dom().len(),
            forall|i: int|
                0 <= i < copies.len() ==> self@.knows(#[trigger] copies[i].id)
                    && self@.identities[copies[i].id] == copies[i]@,
            forall|id: u64|
                self@.knows(id) ==> exists|i: int|
                    0 <= i < copies.len() && (#[trigger] copies[i]).id == id,
    {
        let mut copies: Vec<Identity> = Vec::new();
        let mut k: usize = 0;
        while k < self.identities.len()
            invariant
                self.wf(),
                k <= self.identities.len(),
                copies.len() == k,
                forall|i: int|
                    0 <= i < k ==> (#[trigger] copies[i]).id == self.identities[i].id
                        && copies[i]@ == self.identities[i]@,
            decreases self.identities.len() - k,
        {
            let one = &self.identities[k];
            let copy = Identity {
                id: one.id,
                nickname: copy_of(&one.nickname),
                username: copy_of(&one.username),
                mode: one.mode,
                realname: copy_of(&one.realname),
                channels: tokens_from(&one.channels, 0),
            };
            assert(rest(one.channels.deep_view(), 0) =~= one.channels.deep_view());
            copies.push(copy);
            k = k + 1;
        }
        proof {
            assert forall|i: int| 0 <= i < copies.len() implies self@.knows(
                #[trigger] copies[i].id,
            ) && self@.identities[copies[i].id] == copies[i]@ by {
                self.lemma_identity_at(i);
            }
            assert forall|id: u64| self@.knows(id) implies exists|i: int|
                0 <= i < copies.len() && (#[trigger] copies[i]).id == id by {
                let i = self.lemma_identity_of(id);
                assert(copies[i].id == id);
            }
            self.ids().unique_seq_to_set();
            assert(self.ids().to_set() =~= self@.identities.dom());
        }
        copies
    }

    /// A copy of every channel, in no order that matters.
    pub fn channels(&self) -> (copies: Vec<Channel>)
        requires
            self.wf(),
        ensures
            copies.len() == self@.channels.dom().len(),
            forall|i: int|
                0 <= i < copies.len() ==> self@.channels.dom().contains(
                    (#[trigger] copies[i]).name@,
                ) && self@.channels[copies[i].name@] == copies[i]@,
            forall|name: Seq<char>|
                self@.channels.dom().contains(name) ==> exists|i: int|
                    0 <= i < copies.len() && (#[trigger] copies[i]).name@ == name,
    {
        let mut copies: Vec<Channel> = Vec::new();
        let mut k: usize = 0;
        while k < self.channels.len()
            invariant
                self.wf(),
                k <= self.channels.len(),
                copies.len() == k,
                forall|i: int|
                    0 <= i < k ==> (#[trigger] copies[i]).name@ == self.channels[i].name@
                        && copies[i]@ == self.channels[i]@,
            decreases self.channels.len() - k,
        {
            let one = &self.channels[k];
            let mut members: Vec<u64> = Vec::new();
            let mut m: usize = 0;
            while m < one.members.len()
                invariant
                    m <= one.members.len(),
                    members@ == one.members@.take(m as int),
                decreases one.members.len() - m,
            {
                members.push(one.members[m]);
                assert(one.members@.take(m + 1) =~= one.members@.take(m as int).push(
                    one.members[m as int],
                ));
                m = m + 1;
            }
            assert(one.members@.take(one.members.len() as int) =~= one.members@);
            let copy = Channel { name: one.name.clone(), key: copy_of(&one.key), members };
            copies.push(copy);
            k = k + 1;
        }
        proof {
            assert forall|i: int| 0 <= i < copies.len() implies self@.channels.dom().contains(
                (#[trigger] copies[i]).name@,
            ) && self@.channels[copies[i].name@] == copies[i]@ by {
                self.lemma_channel_at(i);
            }
            assert forall|name: Seq<char>| self@.channels.dom().contains(name) implies exists|
                i: int,
            |
                0 <= i < copies.len() && (#[trigger] copies[i]).name@ == name by {
                let i = self.lemma_channel_of(name);
                assert(copies[i].name@ == name);
            }
            self.names().unique_seq_to_set();
            assert(self.names().to_set() =~= self@.channels.dom());
        }
        copies
    }
}

} // verus!
