//! What holds of the registries whatever happens to them.
//!
//! The registries start out consistent and every step keeps them so; the
//! rest follows from that and from what each command is defined to do.

use vstd::prelude::*;
use crate::commands::{CommandKindView, CommandView};
use crate::errors::IrcErrorView;
use crate::model::{key_at, NoticeView, ReplyView, StateView, StepView};

verus! {

/// Empty registries are consistent.
pub proof fn lemma_empty_consistent()
    ensures
        StateView::empty().consistent(),
{
}

/// Taking in a new client keeps the registries consistent.
pub proof fn lemma_connect_consistent(s: StateView, id: u64)
    requires
        s.consistent(),
    ensures
        s.connect(id).consistent(),
{
    let t = s.connect(id);
    if !s.knows(id) {
        assert forall|i: u64, c: Seq<char>| t.occupies(i, c) <==> t.has_member(c, i) by {
            assert(s.occupies(i, c) <==> s.has_member(c, i));
        }
        assert forall|c: Seq<char>| #[trigger] t.channels.dom().contains(c) implies exists|i: u64|
            #[trigger] t.has_member(c, i) by {
            let i = choose|i: u64| #[trigger] s.has_member(c, i);
            assert(t.has_member(c, i));
        }
        assert forall|a: u64, b: u64, n: Seq<char>| t.holds(a, n) && t.holds(b, n) implies a
            == b by {
            assert(s.holds(a, n) && s.holds(b, n));
        }
        assert forall|i: u64, c: Seq<char>| #[trigger] t.occupies(i, c) implies t.registered(
            i,
        ) by {
            assert(s.occupies(i, c));
        }
    }
}

/// Dropping a client that never registered keeps the registries consistent.
pub proof fn lemma_forget_consistent(s: StateView, id: u64)
    requires
        s.consistent(),
    ensures
        s.forget(id).consistent(),
{
    let t = s.forget(id);
    if s.knows(id) && !s.registered(id) {
        assert forall|i: u64, c: Seq<char>| t.occupies(i, c) <==> t.has_member(c, i) by {
            assert(s.occupies(i, c) <==> s.has_member(c, i));
            if i == id && s.has_member(c, i) {
                assert(s.occupies(i, c));
            }
        }
        assert forall|c: Seq<char>| #[trigger] t.channels.dom().contains(c) implies exists|i: u64|
            #[trigger] t.has_member(c, i) by {
            let i = choose|i: u64| #[trigger] s.has_member(c, i);
            assert(t.has_member(c, i));
        }
        assert forall|a: u64, b: u64, n: Seq<char>| t.holds(a, n) && t.holds(b, n) implies a
            == b by {
            assert(s.holds(a, n) && s.holds(b, n));
        }
        assert forall|i: u64, c: Seq<char>| #[trigger] t.occupies(i, c) implies t.registered(
            i,
        ) by {
            assert(s.occupies(i, c));
        }
    }
}

/// `NICK` keeps the registries consistent.
pub proof fn lemma_nick_consistent(s: StateView, id: u64, nickname: Seq<char>)
    requires
        s.consistent(),
    ensures
        s.nick(id, nickname).state.consistent(),
{
    let t = s.nick(id, nickname).state;
    if s.knows(id) && !s.nick_in_use(id, nickname) {
        assert forall|i: u64, c: Seq<char>| t.occupies(i, c) <==> t.has_member(c, i) by {
            assert(s.occupies(i, c) <==> s.has_member(c, i));
        }
        assert forall|c: Seq<char>| #[trigger] t.channels.dom().contains(c) implies exists|i: u64|
            #[trigger] t.has_member(c, i) by {
            let i = choose|i: u64| #[trigger] s.has_member(c, i);
            assert(t.has_member(c, i));
        }
        assert forall|a: u64, b: u64, n: Seq<char>| t.holds(a, n) && t.holds(b, n) implies a
            == b by {
            if a != b {
                if a == id {
                    assert(s.holds(b, n));
                } else if b == id {
                    assert(s.holds(a, n));
                } else {
                    assert(s.holds(a, n) && s.holds(b, n));
                }
            }
        }
        assert forall|i: u64, c: Seq<char>| #[trigger] t.occupies(i, c) implies t.registered(
            i,
        ) by {
            assert(s.occupies(i, c));
        }
    }
}

/// `USER` keeps the registries consistent.
pub proof fn lemma_user_consistent(
    s: StateView,
    id: u64,
    username: Seq<char>,
    mode: u8,
    realname: Seq<char>,
)
    requires
        s.consistent(),
    ensures
        s.user(id, username, mode, realname).state.consistent(),
{
    let t = s.user(id, username, mode, realname).state;
    if t != s {
        assert forall|i: u64, c: Seq<char>| t.occupies(i, c) <==> t.has_member(c, i) by {
            assert(s.occupies(i, c) <==> s.has_member(c, i));
        }
        assert forall|c: Seq<char>| #[trigger] t.channels.dom().contains(c) implies exists|i: u64|
            #[trigger] t.has_member(c, i) by {
            let i = choose|i: u64| #[trigger] s.has_member(c, i);
            assert(t.has_member(c, i));
        }
        assert forall|a: u64, b: u64, n: Seq<char>| t.holds(a, n) && t.holds(b, n) implies a
            == b by {
            if a != b {
                if a == id {
                    assert(s.holds(b, n));
                } else if b == id {
                    assert(s.holds(a, n));
                } else {
                    assert(s.holds(a, n) && s.holds(b, n));
                }
            }
        }
        assert forall|i: u64, c: Seq<char>| #[trigger] t.occupies(i, c) implies t.registered(
            i,
        ) by {
            assert(s.occupies(i, c));
        }
    }
}

/// Entering one channel keeps the registries consistent, and the identity
/// registered.
pub proof fn lemma_join_one_consistent(
    s: StateView,
    id: u64,
    channel: Seq<char>,
    key: Option<Seq<char>>,
)
    requires
        s.consistent(),
        s.registered(id),
    ensures
        s.join_one(id, channel, key).0.consistent(),
        s.join_one(id, channel, key).0.registered(id),
{
    let t = s.join_one(id, channel, key).0;
    if t != s {
        assert(t == s.enter(id, channel, key));
        assert forall|i: u64, c: Seq<char>| t.occupies(i, c) <==> t.has_member(c, i) by {
            assert(s.occupies(i, c) <==> s.has_member(c, i));
        }
        assert forall|c: Seq<char>| #[trigger] t.channels.dom().contains(c) implies exists|i: u64|
            #[trigger] t.has_member(c, i) by {
            if c == channel {
                assert(t.has_member(c, id));
            } else {
                let i = choose|i: u64| #[trigger] s.has_member(c, i);
                assert(t.has_member(c, i));
            }
        }
        assert forall|a: u64, b: u64, n: Seq<char>| t.holds(a, n) && t.holds(b, n) implies a
            == b by {
            assert(s.holds(a, n) && s.holds(b, n));
        }
        assert forall|i: u64, c: Seq<char>| #[trigger] t.occupies(i, c) implies t.registered(
            i,
        ) by {
            if i != id {
                assert(s.occupies(i, c));
            }
        }
    }
}

/// Going through the channels of a `JOIN` keeps the registries consistent,
/// and the identity registered.
pub proof fn lemma_join_first_consistent(
    s: StateView,
    id: u64,
    channels: Seq<Seq<char>>,
    keys: Option<Seq<Seq<char>>>,
    n: nat,
)
    requires
        s.consistent(),
        s.registered(id),
    ensures
        s.join_first(id, channels, keys, n).0.consistent(),
        s.join_first(id, channels, keys, n).0.registered(id),
    decreases n,
{
    if n > 0 {
        lemma_join_first_consistent(s, id, channels, keys, (n - 1) as nat);
        let before = s.join_first(id, channels, keys, (n - 1) as nat).0;
        lemma_join_one_consistent(before, id, channels[n - 1], key_at(keys, n - 1));
    }
}

/// Leaving channels keeps the registries consistent.
pub proof fn lemma_leave_consistent(s: StateView, id: u64, gone: Set<Seq<char>>)
    requires
        s.consistent(),
    ensures
        s.leave(id, gone).consistent(),
{
    let t = s.leave(id, gone);
    assert forall|i: u64, c: Seq<char>| t.occupies(i, c) <==> t.has_member(c, i) by {
        assert(s.occupies(i, c) <==> s.has_member(c, i));
        if s.has_member(c, i) && i != id && gone.contains(c) {
            assert(s.channels[c].members.contains(i));
            assert(s.channels[c].has_other(id));
        }
    }
    assert forall|c: Seq<char>| #[trigger] t.channels.dom().contains(c) implies exists|i: u64|
        #[trigger] t.has_member(c, i) by {
        if gone.contains(c) {
            let i = choose|i: u64| i != id && #[trigger] s.channels[c].members.contains(i);
            assert(t.has_member(c, i));
        } else {
            let i = choose|i: u64| #[trigger] s.has_member(c, i);
            assert(t.has_member(c, i));
        }
    }
    assert forall|a: u64, b: u64, n: Seq<char>| t.holds(a, n) && t.holds(b, n) implies a == b by {
        assert(s.holds(a, n) && s.holds(b, n));
    }
    assert forall|i: u64, c: Seq<char>| #[trigger] t.occupies(i, c) implies t.registered(i) by {
        assert(s.occupies(i, c));
    }
}

/// Leaving some channels and then one more is leaving them all at once.
pub proof fn lemma_leave_one_more(s: StateView, id: u64, gone: Set<Seq<char>>, channel: Seq<char>)
    ensures
        s.leave(id, gone).leave(id, set![channel]) == s.leave(id, gone.insert(channel)),
{
    let a = s.leave(id, gone).leave(id, set![channel]);
    let b = s.leave(id, gone.insert(channel));
    if s.knows(id) {
        assert(a.identities[id].channels =~= b.identities[id].channels);
    }
    assert(a.identities =~= b.identities);
    assert forall|c: Seq<char>| a.channels.dom().contains(c) <==> b.channels.dom().contains(
        c,
    ) by {
        if s.channels.dom().contains(c) {
            let now = s.leave(id, gone).channels[c];
            if s.channels[c].has_other(id) {
                let other = choose|other: u64|
                    other != id && #[trigger] s.channels[c].members.contains(other);
                assert(now.members.contains(other));
            }
            if s.leave(id, gone).channels.dom().contains(c) && now.has_other(id) {
                let other = choose|other: u64|
                    other != id && #[trigger] now.members.contains(other);
                assert(s.channels[c].members.contains(other));
            }
        }
    }
    assert forall|c: Seq<char>| #[trigger] a.channels.dom().contains(c) implies a.channels[c]
        =~= b.channels[c] by {}
    assert(a.channels =~= b.channels);
}

/// Leaving no channel changes nothing.
pub proof fn lemma_leave_none(s: StateView, id: u64)
    ensures
        s.leave(id, Set::empty()) == s,
{
    let t = s.leave(id, Set::empty());
    if s.knows(id) {
        assert(t.identities[id].channels =~= s.identities[id].channels);
        assert(t.identities[id] =~= s.identities[id]);
    }
    assert(t.identities =~= s.identities);
    assert(t.channels =~= s.channels);
}

/// `JOIN` keeps the registries consistent.
pub proof fn lemma_join_consistent(
    s: StateView,
    id: u64,
    channels: Seq<Seq<char>>,
    keys: Option<Seq<Seq<char>>>,
)
    requires
        s.consistent(),
    ensures
        s.join(id, channels, keys).state.consistent(),
{
    if s.registered(id) {
        lemma_leave_consistent(s, id, s.identities[id].channels);
        lemma_join_first_consistent(s, id, channels, keys, channels.len());
    }
}

/// `QUIT` keeps the registries consistent.
pub proof fn lemma_quit_consistent(s: StateView, id: u64, message: Option<Seq<char>>)
    requires
        s.consistent(),
    ensures
        s.quit(id, message).state.consistent(),
{
    if s.registered(id) {
        let left = s.leave(id, s.identities[id].channels);
        lemma_leave_consistent(s, id, s.identities[id].channels);
        let t = s.quit(id, message).state;
        assert forall|i: u64, c: Seq<char>| t.occupies(i, c) <==> t.has_member(c, i) by {
            assert(left.occupies(i, c) <==> left.has_member(c, i));
            assert(!left.occupies(id, c));
        }
        assert forall|c: Seq<char>| #[trigger] t.channels.dom().contains(c) implies exists|i: u64|
            #[trigger] t.has_member(c, i) by {
            let i = choose|i: u64| #[trigger] left.has_member(c, i);
            assert(t.has_member(c, i));
        }
        assert forall|a: u64, b: u64, n: Seq<char>| t.holds(a, n) && t.holds(b, n) implies a
            == b by {
            assert(left.holds(a, n) && left.holds(b, n));
        }
        assert forall|i: u64, c: Seq<char>| #[trigger] t.occupies(i, c) implies t.registered(
            i,
        ) by {
            assert(left.occupies(i, c));
        }
    }
}

/// Every command keeps the registries consistent.
pub proof fn lemma_apply_consistent(s: StateView, id: u64, command: CommandView)
    requires
        s.consistent(),
    ensures
        s.apply(id, command).state.consistent(),
{
    match command.kind {
        CommandKindView::Join { channels, keys } => lemma_join_consistent(s, id, channels, keys),
        CommandKindView::Nick { nickname } => lemma_nick_consistent(s, id, nickname),
        CommandKindView::User { username, mode, full_name } => lemma_user_consistent(
            s,
            id,
            username,
            mode,
            full_name,
        ),
        CommandKindView::Ping { .. } => {},
        CommandKindView::PrivMsg { .. } => {},
        CommandKindView::Quit { quit_message } => lemma_quit_consistent(s, id, quit_message),
    }
}

/// Whatever steps are taken from consistent registries, they stay
/// consistent.
pub proof fn lemma_run_consistent(s: StateView, steps: Seq<StepView>)
    requires
        s.consistent(),
    ensures
        s.run(steps).consistent(),
    decreases steps.len(),
{
    if steps.len() > 0 {
        lemma_run_consistent(s, steps.drop_last());
        let before = s.run(steps.drop_last());
        match steps.last() {
            StepView::Connect(id) => lemma_connect_consistent(before, id),
            StepView::Forget(id) => lemma_forget_consistent(before, id),
            StepView::Apply(id, command) => lemma_apply_consistent(before, id, command),
        }
    }
}

/// In every state that can be reached from empty registries, an identity
/// lists a channel exactly when the channel lists the identity.
pub proof fn lemma_membership_symmetric_always(steps: Seq<StepView>, id: u64, channel: Seq<char>)
    ensures
        StateView::empty().run(steps).occupies(id, channel) <==> StateView::empty().run(
            steps,
        ).has_member(channel, id),
{
    lemma_empty_consistent();
    lemma_run_consistent(StateView::empty(), steps);
}

/// In every state that can be reached from empty registries, at most one
/// registered identity holds a given nickname.
pub proof fn lemma_nicknames_unique_always(
    steps: Seq<StepView>,
    a: u64,
    b: u64,
    nickname: Seq<char>,
)
    requires
        StateView::empty().run(steps).holds(a, nickname),
        StateView::empty().run(steps).holds(b, nickname),
    ensures
        a == b,
{
    lemma_empty_consistent();
    lemma_run_consistent(StateView::empty(), steps);
}

/// In every state that can be reached from empty registries, every channel
/// has a member, and every member of a channel is registered.
pub proof fn lemma_channels_inhabited_always(steps: Seq<StepView>, channel: Seq<char>)
    requires
        StateView::empty().run(steps).channels.dom().contains(channel),
    ensures
        exists|id: u64| #[trigger] StateView::empty().run(steps).has_member(channel, id),
        forall|id: u64| #[trigger]
            StateView::empty().run(steps).has_member(channel, id) ==> StateView::empty().run(
                steps,
            ).registered(id),
{
    lemma_empty_consistent();
    lemma_run_consistent(StateView::empty(), steps);
    let s = StateView::empty().run(steps);
    assert forall|id: u64| #[trigger] s.has_member(channel, id) implies s.registered(id) by {
        assert(s.occupies(id, channel));
    }
}

/// A channel with a key takes in only who offers that key: anyone else is
/// told `BadChannelKey`, and nothing changes.
pub proof fn lemma_key_needed(s: StateView, id: u64, channel: Seq<char>, key: Option<Seq<char>>)
    requires
        s.channels.dom().contains(channel),
        s.channels[channel].key is Some,
        s.channels[channel].key != key,
        !s.has_member(channel, id),
    ensures
        s.join_one(id, channel, key).0 == s,
        s.join_one(id, channel, key).1 == set![
            ReplyView {
                to: id,
                notice: NoticeView::Failed(IrcErrorView::BadChannelKey { channel }),
            },
        ],
{
}

/// A `JOIN` for two channels with a key for the first only, where the first
/// can be entered and the second has a key: the identity enters the first,
/// stays out of the second, and is told `BadChannelKey` for the second.
pub proof fn lemma_join_succeeds_in_part(
    s: StateView,
    id: u64,
    first: Seq<char>,
    second: Seq<char>,
    key: Seq<char>,
)
    requires
        s.consistent(),
        s.registered(id),
        first != second,
        s.channels.dom().contains(first) ==> s.channels[first].key is None
            || s.channels[first].key == Some(key),
        s.channels.dom().contains(second),
        s.channels[second].key is Some,
        !s.has_member(second, id),
    ensures
        s.join(id, seq![first, second], Some(seq![key])).result is Ok,
        s.join(id, seq![first, second], Some(seq![key])).result->Ok_0.contains(
            ReplyView {
                to: id,
                notice: NoticeView::Failed(IrcErrorView::BadChannelKey { channel: second }),
            },
        ),
        s.join(id, seq![first, second], Some(seq![key])).state.occupies(id, first),
        !s.join(id, seq![first, second], Some(seq![key])).state.occupies(id, second),
{
    let channels = seq![first, second];
    let keys = Some(seq![key]);
    assert(channels.len() == 2);
    assert(channels != seq!["0"@]) by {
        assert(seq!["0"@].len() == 1);
    }
    reveal_with_fuel(StateView::join_first, 3);
    let start = s.join_first(id, channels, keys, 0);
    assert(start.0 == s);
    let mid = s.join_first(id, channels, keys, 1);
    assert(channels[0] == first && channels[1] == second);
    assert(key_at(keys, 0) == Some(key));
    assert(key_at(keys, 1) == None::<Seq<char>>);
    assert(mid.0 == s.join_one(id, first, Some(key)).0);
    lemma_join_one_consistent(s, id, first, Some(key));
    assert(mid.0.occupies(id, first)) by {
        if s.has_member(first, id) {
            assert(s.occupies(id, first));
        }
    }
    assert(mid.0.channels.dom().contains(second));
    assert(mid.0.channels[second] == s.channels[second]);
    assert(!mid.0.has_member(second, id));
    lemma_key_needed(mid.0, id, second, None);
    let end = s.join_first(id, channels, keys, 2);
    assert(end.0 == mid.0);
    assert(!end.0.occupies(id, second)) by {
        assert(mid.0.occupies(id, second) <==> mid.0.has_member(second, id));
    }
}

/// A command that fails changes nothing.
pub proof fn lemma_failure_changes_nothing(s: StateView, id: u64, command: CommandView)
    requires
        s.apply(id, command).result is Err,
    ensures
        s.apply(id, command).state == s,
{
}

/// No two registered identities have the same nickname.
pub proof fn lemma_nicknames_unique(s: StateView, a: u64, b: u64)
    requires
        s.consistent(),
        s.registered(a),
        s.registered(b),
        s.identities[a].nickname == s.identities[b].nickname,
    ensures
        a == b,
{
    let n = s.identities[a].nickname->0;
    assert(s.holds(a, n) && s.holds(b, n));
}

/// Asking for a nickname that another registered identity holds fails with
/// `NicknameInUse`, and nobody's nickname changes.
pub proof fn lemma_taken_nickname_refused(s: StateView, holder: u64, id: u64, nickname: Seq<char>)
    requires
        s.knows(id),
        s.holds(holder, nickname),
        holder != id,
    ensures
        s.nick(id, nickname).result == Err::<Set<ReplyView>, IrcErrorView>(
            IrcErrorView::NicknameInUse { nickname },
        ),
        s.nick(id, nickname).state == s,
{
}

/// An identity is in a channel by its own list exactly when it is by the
/// channel's.
pub proof fn lemma_membership_symmetric(s: StateView, id: u64, channel: Seq<char>)
    requires
        s.consistent(),
    ensures
        s.occupies(id, channel) <==> s.has_member(channel, id),
{
}

/// When a registered identity that is in no channel quits, nobody is told,
/// the identity is gone, and nothing else changes.
pub proof fn lemma_quit_outside_channels(s: StateView, id: u64, message: Option<Seq<char>>)
    requires
        s.consistent(),
        s.registered(id),
        s.identities[id].channels =~= Set::<Seq<char>>::empty(),
    ensures
        s.quit(id, message).result == Ok::<Set<ReplyView>, IrcErrorView>(Set::empty()),
        s.quit(id, message).state.identities == s.identities.remove(id),
        s.quit(id, message).state.channels == s.channels,
{
    let out = s.quit(id, message);
    let told = out.result->Ok_0;
    assert forall|r: ReplyView| !told.contains(r) by {
        if s.share_channel(id, r.to) {
            let c = choose|c: Seq<char>| #[trigger] s.has_member(c, id) && s.has_member(c, r.to);
            assert(s.occupies(id, c));
        }
    }
    assert(told =~= Set::<ReplyView>::empty());
    assert(out.state.identities =~= s.identities.remove(id));
    assert(out.state.channels =~= s.channels);
}

/// Before an identity is registered, `PRIVMSG`, `JOIN`, `PING` and `QUIT`
/// fail with `NotRegistered` and change nothing.
pub proof fn lemma_unregistered_refused(s: StateView, id: u64, command: CommandView)
    requires
        !s.registered(id),
        !(command.kind is Nick),
        !(command.kind is User),
    ensures
        s.apply(id, command).result == Err::<Set<ReplyView>, IrcErrorView>(
            IrcErrorView::NotRegistered,
        ),
        s.apply(id, command).state == s,
{
}

} // verus!
