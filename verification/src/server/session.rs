//! One turn of a connection: what was read from it goes in, and what is to
//! be sent, and whether the connection is to be closed, comes out.
//!
//! The reading and the sending are the caller's. Between the two lies
//! everything that is decided here: a line is parsed and applied; a line
//! that is no command is answered and the connection stays; a connection
//! that ended, failed or sent too long a line quits on the spot.

use vstd::prelude::*;
use vstd::string::*;
use crate::commands::{Command, CommandKind, CommandView};
use crate::laws::{lemma_apply_consistent, lemma_forget_consistent, lemma_quit_consistent};
use crate::model::{ReplyView, StateView};
use crate::replies::{lemma_told_push, told, Reply};
use crate::server::grammar::view_of;
use crate::server::parser::{line_of, parse_line, ParseError, ParseErrorView};
use crate::state::State;

verus! {

/// A line of this many bytes, its end counted in, is too long.
pub const LINE_LIMIT: usize = 512;

/// What reading from a connection gave.
#[derive(Debug, PartialEq, Eq)]
pub enum Read {
    /// One line, its end still on it.
    Line(String),
    /// The stream is at its end.
    Closed,
    /// The read failed, or what came was no text.
    Failed,
}

/// A [`Read`] with its line taken as a sequence of characters.
pub enum ReadView {
    Line(Seq<char>),
    Closed,
    Failed,
}

impl View for Read {
    type V = ReadView;

    open spec fn view(&self) -> ReadView {
        match self {
            Read::Line(line) => ReadView::Line(line@),
            Read::Closed => ReadView::Closed,
            Read::Failed => ReadView::Failed,
        }
    }
}

/// One line for one identity.
#[derive(Debug, PartialEq, Eq)]
pub struct Delivery {
    pub to: u64,
    /// The line, without its end.
    pub line: String,
}

/// A [`Delivery`] with its line taken as a sequence of characters.
pub struct DeliveryView {
    pub to: u64,
    pub line: Seq<char>,
}

impl View for Delivery {
    type V = DeliveryView;

    open spec fn view(&self) -> DeliveryView {
        DeliveryView { to: self.to, line: self.line@ }
    }
}

/// What a turn came to.
#[derive(Debug, PartialEq, Eq)]
pub struct Turn {
    /// The lines to send, in no order that matters.
    pub deliveries: Vec<Delivery>,
    /// Whether the connection is to be closed now.
    pub close: bool,
    /// Whether a command was applied, so that the registries are to be
    /// saved.
    pub save: bool,
}

/// A turn over views, with the registries as it leaves them.
pub struct TurnView {
    pub state: StateView,
    pub deliveries: Set<DeliveryView>,
    pub close: bool,
    pub save: bool,
}

/// The deliveries in a list, in no order and each counted once.
pub open spec fn delivered(deliveries: Seq<Delivery>) -> Set<DeliveryView> {
    Set::new(
        |v: DeliveryView|
            exists|i: int| 0 <= i < deliveries.len() && #[trigger] deliveries[i]@ == v,
    )
}

/// The delivery that carries a reply.
pub open spec fn delivery_of(reply: ReplyView) -> DeliveryView {
    DeliveryView { to: reply.to, line: reply.notice.line() }
}

/// The deliveries that carry the replies.
pub open spec fn deliveries_of(replies: Set<ReplyView>) -> Set<DeliveryView> {
    Set::new(
        |d: DeliveryView|
            exists|r: ReplyView| replies.contains(r) && #[trigger] delivery_of(r) == d,
    )
}

/// A line without its end: without `\r\n` where it ends so, else without
/// `\n` where it ends so.
pub open spec fn without_terminator(line: Seq<char>) -> Seq<char> {
    if line.len() >= 2 && line[line.len() - 2] == '\r' && line[line.len() - 1] == '\n' {
        line.take(line.len() - 2)
    } else if line.len() >= 1 && line[line.len() - 1] == '\n' {
        line.take(line.len() - 1)
    } else {
        line
    }
}

/// The turn of a connection that is over: the identity quits with the
/// reason for its message, those who shared a channel with it are told, and
/// whatever is left of it is dropped.
pub open spec fn hang_up_of(s: StateView, id: u64, reason: Seq<char>) -> TurnView {
    let out = s.quit(id, Some(reason));
    TurnView {
        state: out.state.forget(id),
        deliveries: match out.result {
            Ok(replies) => deliveries_of(replies),
            Err(_) => Set::empty(),
        },
        close: true,
        save: true,
    }
}

/// The turn for a line, once it has been read as a command or found to
/// be none. A line that is no command is answered with what is wrong with
/// it; a command is applied, and answered with its replies or with its
/// failure. Only a `QUIT` that is applied closes the connection.
pub open spec fn parsed_turn_of(
    s: StateView,
    id: u64,
    parsed: Result<CommandView, ParseErrorView>,
) -> TurnView {
    match parsed {
        Err(e) => TurnView {
            state: s,
            deliveries: set![DeliveryView { to: id, line: e.text() }],
            close: false,
            save: false,
        },
        Ok(command) => {
            let out = s.apply(id, command);
            match out.result {
                Ok(replies) => TurnView {
                    state: out.state,
                    deliveries: deliveries_of(replies),
                    close: command.kind is Quit,
                    save: true,
                },
                Err(e) => TurnView {
                    state: out.state,
                    deliveries: set![DeliveryView { to: id, line: e.reply() }],
                    close: false,
                    save: false,
                },
            }
        },
    }
}

/// The turn for a line that was read whole.
pub open spec fn line_turn_of(s: StateView, id: u64, line: Seq<char>) -> TurnView {
    parsed_turn_of(s, id, line_of(without_terminator(line)))
}

/// The turn for what was read.
pub open spec fn turn_of(s: StateView, id: u64, read: ReadView) -> TurnView {
    match read {
        ReadView::Closed => hang_up_of(s, id, "Socket disconnected"@),
        ReadView::Failed => hang_up_of(s, id, "Connection reset"@),
        ReadView::Line(line) => if vstd::utf8::encode_utf8(line).len() >= LINE_LIMIT {
            hang_up_of(s, id, "Line too long"@)
        } else {
            line_turn_of(s, id, line)
        },
    }
}

/// A turn keeps the registries consistent, whatever was read.
pub proof fn lemma_turn_consistent(s: StateView, id: u64, read: ReadView)
    requires
        s.consistent(),
    ensures
        turn_of(s, id, read).state.consistent(),
{
    let reason = match read {
        ReadView::Closed => "Socket disconnected"@,
        ReadView::Failed => "Connection reset"@,
        ReadView::Line(_) => "Line too long"@,
    };
    lemma_quit_consistent(s, id, Some(reason));
    lemma_forget_consistent(s.quit(id, Some(reason)).state, id);
    if let ReadView::Line(line) = read {
        if let Ok(command) = line_of(without_terminator(line)) {
            lemma_apply_consistent(s, id, command);
        }
    }
}

/// A turn closes the connection exactly when the connection is over, the
/// line is too long, or the line is a `QUIT` that is applied.
pub proof fn lemma_turn_closes(s: StateView, id: u64, read: ReadView)
    ensures
        turn_of(s, id, read).close <==> match read {
            ReadView::Closed => true,
            ReadView::Failed => true,
            ReadView::Line(line) => vstd::utf8::encode_utf8(line).len() >= LINE_LIMIT || (line_of(
                without_terminator(line),
            ) matches Ok(command) && command.kind is Quit && s.registered(id)),
        },
{
}

/// One more delivery in the list is one more thing delivered.
proof fn lemma_delivered_push(deliveries: Seq<Delivery>, delivery: Delivery)
    ensures
        delivered(deliveries.push(delivery)) == delivered(deliveries).insert(delivery@),
{
    let longer = deliveries.push(delivery);
    assert forall|v: DeliveryView|
        delivered(longer).contains(v) <==> delivered(deliveries).insert(delivery@).contains(
            v,
        ) by {
        if delivered(deliveries).contains(v) {
            let i = choose|i: int| 0 <= i < deliveries.len() && #[trigger] deliveries[i]@ == v;
            assert(longer[i]@ == v);
        }
        if delivered(longer).contains(v) {
            let i = choose|i: int| 0 <= i < longer.len() && #[trigger] longer[i]@ == v;
            if i < deliveries.len() {
                assert(deliveries[i]@ == v);
            }
        }
        assert(longer[deliveries.len() as int]@ == delivery@);
    }
    assert(delivered(longer) =~= delivered(deliveries).insert(delivery@));
}

/// The line alone, for the identity alone.
fn one_delivery(to: u64, line: String) -> (deliveries: Vec<Delivery>)
    ensures
        delivered(deliveries@) == set![DeliveryView { to, line: line@ }],
{
    let mut deliveries: Vec<Delivery> = Vec::new();
    let delivery = Delivery { to, line };
    deliveries.push(delivery);
    proof {
        lemma_delivered_push(Seq::<Delivery>::empty(), delivery);
        assert(delivered(Seq::<Delivery>::empty()) =~= Set::<DeliveryView>::empty());
        assert(delivered(deliveries@) =~= set![delivery@]);
    }
    deliveries
}

/// Writes each reply out as the line to send, in the order of the replies.
pub fn deliveries(replies: &Vec<Reply>) -> (deliveries: Vec<Delivery>)
    ensures
        deliveries.len() == replies.len(),
        forall|i: int|
            0 <= i < replies.len() ==> (#[trigger] deliveries[i])@ == delivery_of(replies[i]@),
        delivered(deliveries@) == deliveries_of(told(replies@)),
{
    let mut deliveries: Vec<Delivery> = Vec::new();
    let mut k: usize = 0;
    assert(delivered(deliveries@) =~= deliveries_of(told(replies@.take(0))));
    while k < replies.len()
        invariant
            k <= replies.len(),
            deliveries.len() == k,
            forall|i: int| 0 <= i < k ==> (#[trigger] deliveries[i])@ == delivery_of(replies[i]@),
            delivered(deliveries@) == deliveries_of(told(replies@.take(k as int))),
        decreases replies.len() - k,
    {
        let delivery = Delivery { to: replies[k].to, line: replies[k].notice.line() };
        proof {
            let before = told(replies@.take(k as int));
            let after = told(replies@.take(k + 1));
            assert(replies@.take(k + 1) =~= replies@.take(k as int).push(replies[k as int]));
            lemma_told_push(replies@.take(k as int), replies[k as int]);
            lemma_delivered_push(deliveries@, delivery);
            assert(delivery@ == delivery_of(replies[k as int]@));
            assert forall|d: DeliveryView|
                deliveries_of(after).contains(d) <==> deliveries_of(before).insert(
                    delivery@,
                ).contains(d) by {
                if deliveries_of(before).contains(d) {
                    let r = choose|r: ReplyView|
                        before.contains(r) && #[trigger] delivery_of(r) == d;
                    assert(after.contains(r));
                }
                if deliveries_of(after).contains(d) {
                    let r = choose|r: ReplyView|
                        after.contains(r) && #[trigger] delivery_of(r) == d;
                    if r != replies[k as int]@ {
                        assert(before.contains(r));
                    }
                }
                assert(after.contains(replies[k as int]@));
            }
            assert(deliveries_of(after) =~= deliveries_of(before).insert(delivery@));
        }
        deliveries.push(delivery);
        k = k + 1;
    }
    assert(replies@.take(replies.len() as int) =~= replies@);
    deliveries
}

/// The line without its end.
pub fn strip_terminator(line: &str) -> (r: String)
    ensures
        r@ == without_terminator(line@),
{
    let n: usize = line.unicode_len();
    if n >= 2 && line.get_char(n - 2) == '\r' && line.get_char(n - 1) == '\n' {
        line.substring_char(0, n - 2).to_owned()
    } else if n >= 1 && line.get_char(n - 1) == '\n' {
        line.substring_char(0, n - 1).to_owned()
    } else {
        line.to_owned()
    }
}

/// Ends the part of the identity `id`: it quits with `reason` for its
/// message, and whatever is left of it is dropped.
fn hang_up(state: &mut State, id: u64, reason: &str) -> (turn: Turn)
    requires
        old(state).wf(),
    ensures
        final(state).wf(),
        final(state)@ == hang_up_of(old(state)@, id, reason@).state,
        delivered(turn.deliveries@) == hang_up_of(old(state)@, id, reason@).deliveries,
        turn.close == hang_up_of(old(state)@, id, reason@).close,
        turn.save == hang_up_of(old(state)@, id, reason@).save,
{
    let quit = Command {
        prefix: None,
        kind: CommandKind::Quit { quit_message: Some(reason.to_owned()) },
    };
    let result = state.apply(id, quit);
    state.forget(id);
    let deliveries = match result {
        Ok(replies) => deliveries(&replies),
        Err(_) => {
            let none: Vec<Delivery> = Vec::new();
            assert(delivered(none@) =~= Set::<DeliveryView>::empty());
            none
        },
    };
    Turn { deliveries, close: true, save: true }
}

/// Takes one turn for the identity `id`: decides, from what was read on its
/// connection, what happens to the registries, which lines go out to whom,
/// and whether the connection is closed.
pub fn on_read(state: &mut State, id: u64, read: Read) -> (turn: Turn)
    requires
        old(state).wf(),
    ensures
        final(state).wf(),
        final(state)@ == turn_of(old(state)@, id, read@).state,
        delivered(turn.deliveries@) == turn_of(old(state)@, id, read@).deliveries,
        turn.close == turn_of(old(state)@, id, read@).close,
        turn.save == turn_of(old(state)@, id, read@).save,
{
    match read {
        Read::Closed => {
            return hang_up(state, id, "Socket disconnected");
        },
        Read::Failed => {
            return hang_up(state, id, "Connection reset");
        },
        Read::Line(line) => {
            if line.as_str().as_bytes().len() >= LINE_LIMIT {
                return hang_up(state, id, "Line too long");
            }
            let text = strip_terminator(line.as_str());
            return on_parsed(state, id, parse_line(text.as_str()));
        },
    }
}

/// Takes the turn for a line that has been read as a command, or found to
/// be none.
pub fn on_parsed(state: &mut State, id: u64, parsed: Result<Command, ParseError>) -> (turn: Turn)
    requires
        old(state).wf(),
    ensures
        final(state).wf(),
        final(state)@ == parsed_turn_of(old(state)@, id, view_of(parsed)).state,
        delivered(turn.deliveries@) == parsed_turn_of(old(state)@, id, view_of(parsed)).deliveries,
        turn.close == parsed_turn_of(old(state)@, id, view_of(parsed)).close,
        turn.save == parsed_turn_of(old(state)@, id, view_of(parsed)).save,
{
    match parsed {
        Err(e) => Turn { deliveries: one_delivery(id, e.message()), close: false, save: false },
        Ok(command) => {
            let quitting = match &command.kind {
                CommandKind::Quit { .. } => true,
                _ => false,
            };
            match state.apply(id, command) {
                Ok(replies) => Turn {
                    deliveries: deliveries(&replies),
                    close: quitting,
                    save: true,
                },
                Err(e) => Turn {
                    deliveries: one_delivery(id, e.reply()),
                    close: false,
                    save: false,
                },
            }
        },
    }
}

} // verus!
