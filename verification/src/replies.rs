//! What the engine has to say to its clients, and how it is written on the
//! wire.

use vstd::prelude::*;
use vstd::string::*;
use crate::errors::{IrcError, IrcErrorView};
use crate::model::{NoticeView, ReplyView};

verus! {

/// What one recipient is told.
#[derive(Debug, PartialEq, Eq)]
pub enum Notice {
    /// `nickname` has entered `channel`.
    Joined { nickname: String, channel: String },
    /// `nickname` has left `channel`.
    Parted { nickname: String, channel: String },
    /// `nickname` is gone for good.
    Quit { nickname: String, message: Option<String> },
    /// `sender` says `text` to `recipient`, a nickname or a channel.
    Message { sender: String, recipient: String, text: String },
    /// The answer to a ping.
    Pong { source: String, target: Option<String> },
    /// One part of the command failed; the rest of it went on.
    Failed(IrcError),
}

/// A notice and the identity it is for.
#[derive(Debug, PartialEq, Eq)]
pub struct Reply {
    pub to: u64,
    pub notice: Notice,
}

impl View for Notice {
    type V = NoticeView;

    open spec fn view(&self) -> NoticeView {
        match self {
            Notice::Joined { nickname, channel } => NoticeView::Joined {
                nickname: nickname@,
                channel: channel@,
            },
            Notice::Parted { nickname, channel } => NoticeView::Parted {
                nickname: nickname@,
                channel: channel@,
            },
            Notice::Quit { nickname, message } => NoticeView::Quit {
                nickname: nickname@,
                message: message.deep_view(),
            },
            Notice::Message { sender, recipient, text } => NoticeView::Message {
                sender: sender@,
                recipient: recipient@,
                text: text@,
            },
            Notice::Pong { source, target } => NoticeView::Pong {
                source: source@,
                target: target.deep_view(),
            },
            Notice::Failed(e) => NoticeView::Failed(e@),
        }
    }
}

impl Notice {
    /// The notice as a line on the wire, without its end.
    pub fn line(&self) -> (text: String)
        ensures
            text@ == self@.line(),
    {
        match self {
            Notice::Joined { nickname, channel } => {
                let mut text = ":".to_owned();
                text.append(nickname.as_str());
                text.append(" JOIN ");
                text.append(channel.as_str());
                text
            },
            Notice::Parted { nickname, channel } => {
                let mut text = ":".to_owned();
                text.append(nickname.as_str());
                text.append(" PART ");
                text.append(channel.as_str());
                text
            },
            Notice::Quit { nickname, message } => {
                let mut text = ":".to_owned();
                text.append(nickname.as_str());
                match message {
                    Some(message) => {
                        text.append(" QUIT :");
                        text.append(message.as_str());
                    },
                    None => {
                        text.append(" QUIT");
                    },
                }
                text
            },
            Notice::Message { sender, recipient, text } => {
                let mut line = ":".to_owned();
                line.append(sender.as_str());
                line.append(" PRIVMSG ");
                line.append(recipient.as_str());
                line.append(" :");
                line.append(text.as_str());
                line
            },
            Notice::Pong { source, target } => {
                let mut text = "PONG ".to_owned();
                text.append(source.as_str());
                match target {
                    Some(target) => {
                        text.append(" ");
                        text.append(target.as_str());
                    },
                    None => {},
                }
                text
            },
            Notice::Failed(e) => e.reply(),
        }
    }
}

impl View for Reply {
    type V = ReplyView;

    open spec fn view(&self) -> ReplyView {
        ReplyView { to: self.to, notice: self.notice@ }
    }
}

/// The replies in a list, in no order and each counted once.
pub open spec fn told(replies: Seq<Reply>) -> Set<ReplyView> {
    Set::new(|v: ReplyView| exists|i: int| 0 <= i < replies.len() && #[trigger] replies[i]@ == v)
}

/// Whether no reply is in the list twice.
pub open spec fn each_once(replies: Seq<Reply>) -> bool {
    forall|i: int, j: int| 0 <= i < j < replies.len() ==> replies[i]@ != replies[j]@
}

/// What applying a command came to, over views: the replies as a set, or
/// the failure.
pub open spec fn result_view(r: Result<Vec<Reply>, IrcError>) -> Result<
    Set<ReplyView>,
    IrcErrorView,
> {
    match r {
        Ok(replies) => Ok(told(replies@)),
        Err(e) => Err(e@),
    }
}

/// No replies tell nothing.
pub proof fn lemma_told_empty()
    ensures
        told(Seq::<Reply>::empty()) == Set::<ReplyView>::empty(),
{
    assert(told(Seq::<Reply>::empty()) =~= Set::<ReplyView>::empty());
}

/// One more reply in the list is one more thing told.
pub proof fn lemma_told_push(replies: Seq<Reply>, reply: Reply)
    ensures
        told(replies.push(reply)) == told(replies).insert(reply@),
{
    let longer = replies.push(reply);
    assert forall|v: ReplyView| told(longer).contains(v) <==> told(replies).insert(
        reply@,
    ).contains(v) by {
        if told(replies).contains(v) {
            let i = choose|i: int| 0 <= i < replies.len() && #[trigger] replies[i]@ == v;
            assert(longer[i]@ == v);
        }
        if told(longer).contains(v) {
            let i = choose|i: int| 0 <= i < longer.len() && #[trigger] longer[i]@ == v;
            if i < replies.len() {
                assert(replies[i]@ == v);
            }
        }
        assert(longer[replies.len() as int]@ == reply@);
    }
    assert(told(longer) =~= told(replies).insert(reply@));
}

/// The same notice for every identity in `members` but `except`.
pub open spec fn notices_for(members: Seq<u64>, except: Option<u64>, notice: NoticeView) -> Set<
    ReplyView,
> {
    Set::new(|r: ReplyView| members.contains(r.to) && Some(r.to) != except && r.notice == notice)
}

/// A copy of a text that may be missing.
pub fn copy_of(text: &Option<String>) -> (r: Option<String>)
    ensures
        r.deep_view() == text.deep_view(),
{
    match text {
        Some(s) => Some(s.clone()),
        None => None,
    }
}

/// A copy of a notice that reports no failure.
pub fn copy_notice(notice: &Notice) -> (r: Notice)
    requires
        !(notice is Failed),
    ensures
        r@ == notice@,
{
    match notice {
        Notice::Joined { nickname, channel } => Notice::Joined {
            nickname: nickname.clone(),
            channel: channel.clone(),
        },
        Notice::Parted { nickname, channel } => Notice::Parted {
            nickname: nickname.clone(),
            channel: channel.clone(),
        },
        Notice::Quit { nickname, message } => Notice::Quit {
            nickname: nickname.clone(),
            message: copy_of(message),
        },
        Notice::Message { sender, recipient, text } => Notice::Message {
            sender: sender.clone(),
            recipient: recipient.clone(),
            text: text.clone(),
        },
        Notice::Pong { source, target } => Notice::Pong {
            source: source.clone(),
            target: copy_of(target),
        },
        Notice::Failed(_) => vstd::pervasive::unreached(),
    }
}

/// Adds to `replies` the notice for every identity in `members` but
/// `except`, behind what is there. Where no reply was there twice, no
/// member is listed twice and the notice is a new one, no reply is there
/// twice afterwards.
pub fn tell_each(
    members: &Vec<u64>,
    except: Option<u64>,
    notice: &Notice,
    replies: &mut Vec<Reply>,
)
    requires
        !(notice is Failed),
    ensures
        told(final(replies)@) == told(old(replies)@).union(
            notices_for(members@, except, notice@),
        ),
        final(replies)@.len() >= old(replies)@.len(),
        final(replies)@.take(old(replies)@.len() as int) == old(replies)@,
        forall|i: int|
            old(replies)@.len() <= i < final(replies)@.len() ==> (
            #[trigger] final(replies)@[i])@.notice == notice@,
        each_once(old(replies)@) && members@.no_duplicates() && (forall|i: int|
            0 <= i < old(replies)@.len() ==> (#[trigger] old(replies)@[i])@.notice != notice@)
            ==> each_once(final(replies)@),
{
    let mut k: usize = 0;
    let ghost before = replies@;
    let ghost fresh = each_once(before) && members@.no_duplicates() && (forall|i: int|
        0 <= i < before.len() ==> (#[trigger] before[i])@.notice != notice@);
    assert(told(replies@) =~= told(before).union(notices_for(members@.take(0), except, notice@)));
    assert(replies@.take(before.len() as int) =~= before);
    while k < members.len()
        invariant
            !(notice is Failed),
            k <= members.len(),
            told(replies@) == told(before).union(
                notices_for(members@.take(k as int), except, notice@),
            ),
            replies@.len() >= before.len(),
            replies@.take(before.len() as int) == before,
            forall|i: int|
                before.len() <= i < replies@.len() ==> (#[trigger] replies@[i])@.notice
                    == notice@ && members@.take(k as int).contains(replies@[i].to),
            fresh ==> each_once(replies@),
            fresh == (each_once(before) && members@.no_duplicates() && (forall|i: int|
                0 <= i < before.len() ==> (#[trigger] before[i])@.notice != notice@)),
        decreases members.len() - k,
    {
        let to = members[k];
        let ghost so_far = replies@;
        let ghost shorter = members@.take(k as int);
        let ghost longer = members@.take(k + 1);
        let skip = match except {
            Some(e) => e == to,
            None => false,
        };
        proof {
            assert(longer =~= shorter.push(to));
            assert forall|i: int| before.len() <= i < so_far.len() implies longer.contains(
                (#[trigger] so_far[i]).to,
            ) by {
                let j = shorter.index_of(so_far[i].to);
                assert(longer[j] == so_far[i].to);
            }
        }
        if !skip {
            let reply = Reply { to, notice: copy_notice(notice) };
            replies.push(reply);
            proof {
                lemma_told_push(so_far, reply);
                assert(replies@.take(before.len() as int) =~= so_far.take(before.len() as int));
                assert(longer[k as int] == to);
                if fresh {
                    assert forall|i: int, j: int| 0 <= i < j < replies@.len() implies replies@[i]@
                        != replies@[j]@ by {
                        if j == so_far.len() {
                            if i < before.len() {
                                assert(so_far[i] == before[i]);
                            } else {
                                let at = shorter.index_of(so_far[i].to);
                                assert(members@[at] == so_far[i].to);
                                assert(members@[k as int] == to);
                            }
                        } else {
                            assert(so_far[i]@ != so_far[j]@);
                        }
                    }
                }
            }
        }
        proof {
            assert forall|r: ReplyView|
                notices_for(longer, except, notice@).contains(r) <==> (notices_for(
                    shorter,
                    except,
                    notice@,
                ).contains(r) || (r.to == to && Some(to) != except && r.notice == notice@)) by {
                if shorter.contains(r.to) {
                    let j = shorter.index_of(r.to);
                    assert(longer[j] == r.to);
                }
                if longer.contains(r.to) {
                    let j = longer.index_of(r.to);
                    if j < k {
                        assert(shorter[j] == r.to);
                    }
                }
                assert(longer[k as int] == to);
            }
            assert(told(replies@) =~= told(before).union(notices_for(longer, except, notice@)));
        }
        k = k + 1;
    }
    assert(members@.take(members.len() as int) =~= members@);
}

} // verus!
