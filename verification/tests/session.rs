use irc::server::session::{deliveries, on_parsed, strip_terminator, LINE_LIMIT};
use irc::{
    on_read, parse_env_args, ArgsError, Command, CommandKind, Delivery, Notice, ParseError, Read,
    Reply, State, Turn,
};

fn s(text: &str) -> String {
    text.to_string()
}

fn line(text: &str) -> Read {
    Read::Line(s(text))
}

fn sent(turn: &Turn) -> Vec<(u64, String)> {
    let mut sent: Vec<(u64, String)> =
        turn.deliveries.iter().map(|d| (d.to, d.line.clone())).collect();
    sent.sort();
    sent
}

/// Registries with the identities 1 and 2 registered as alice and bob, both
/// in `#a`.
fn two() -> State {
    let mut state = State::new();
    for (id, name) in [(1, "alice"), (2, "bob")] {
        state.connect(id);
        for text in [format!("NICK {name}\r\n"), format!("USER {name} 0 * :{name}\r\n")] {
            let turn = on_read(&mut state, id, Read::Line(text));
            assert_eq!(turn, Turn { deliveries: vec![], close: false, save: true });
        }
        on_read(&mut state, id, line("JOIN #a\r\n"));
    }
    state
}

#[test]
fn terminator_is_taken_off_once() {
    assert_eq!(strip_terminator("NICK a\r\n"), "NICK a");
    assert_eq!(strip_terminator("NICK a\n"), "NICK a");
    assert_eq!(strip_terminator("NICK a"), "NICK a");
    assert_eq!(strip_terminator("NICK a\r"), "NICK a\r");
    assert_eq!(strip_terminator("NICK a\n\n"), "NICK a\n");
    assert_eq!(strip_terminator("NICK a\r\r\n"), "NICK a\r");
    assert_eq!(strip_terminator("\r\n"), "");
    assert_eq!(strip_terminator("\n"), "");
    assert_eq!(strip_terminator(""), "");
}

#[test]
fn replies_become_lines_for_their_recipients() {
    let replies = vec![
        Reply { to: 3, notice: Notice::Joined { nickname: s("a"), channel: s("#c") } },
        Reply { to: 4, notice: Notice::Pong { source: s("x"), target: None } },
    ];
    assert_eq!(
        deliveries(&replies),
        vec![Delivery { to: 3, line: s(":a JOIN #c") }, Delivery { to: 4, line: s("PONG x") }]
    );
}

#[test]
fn line_is_parsed_and_applied() {
    let mut state = two();
    let turn = on_read(&mut state, 1, line("PRIVMSG #a :hello\r\n"));
    assert_eq!(sent(&turn), vec![(2, s(":alice PRIVMSG #a :hello"))]);
    assert!(!turn.close);
    assert!(turn.save);
}

#[test]
fn line_may_end_in_a_line_feed_alone_or_not_at_all() {
    let mut state = two();
    let turn = on_read(&mut state, 1, line("PRIVMSG bob :one\n"));
    assert_eq!(sent(&turn), vec![(2, s(":alice PRIVMSG bob :one"))]);
    let turn = on_read(&mut state, 1, line("PRIVMSG bob :two"));
    assert_eq!(sent(&turn), vec![(2, s(":alice PRIVMSG bob :two"))]);
}

#[test]
fn line_that_is_no_command_is_answered_and_the_connection_stays() {
    let mut state = two();
    let turn = on_read(&mut state, 1, line("FOO bar\r\n"));
    assert_eq!(
        turn,
        Turn {
            deliveries: vec![Delivery { to: 1, line: s("Unrecognised Command: [foo bar]") }],
            close: false,
            save: false,
        }
    );
    let turn = on_read(&mut state, 1, line("\r\n"));
    assert_eq!(sent(&turn), vec![(1, s("Malformed/Empty Command: []"))]);
    assert!(state.is_registered(1));
    assert!(state.has_member("#a", 1));
}

#[test]
fn command_that_fails_is_answered_with_its_code() {
    let mut state = two();
    let turn = on_read(&mut state, 2, line("NICK alice\r\n"));
    assert_eq!(
        turn,
        Turn {
            deliveries: vec![Delivery {
                to: 2,
                line: s("433 \"alice\" :Nickname is already in use"),
            }],
            close: false,
            save: false,
        }
    );
    assert_eq!(state.nickname_of(2), Some(s("bob")));
}

#[test]
fn quit_closes_the_connection() {
    let mut state = two();
    let turn = on_read(&mut state, 1, line("QUIT :bye\r\n"));
    assert_eq!(sent(&turn), vec![(2, s(":alice QUIT :bye"))]);
    assert!(turn.close);
    assert!(turn.save);
    assert!(!state.knows(1));
}

#[test]
fn quit_before_registration_is_refused_and_the_connection_stays() {
    let mut state = two();
    state.connect(3);
    let turn = on_read(&mut state, 3, line("QUIT\r\n"));
    assert_eq!(sent(&turn), vec![(3, s("451 :You have not registered"))]);
    assert!(!turn.close);
    assert!(state.knows(3));
}

#[test]
fn end_of_stream_quits_for_the_identity() {
    let mut state = two();
    let turn = on_read(&mut state, 1, Read::Closed);
    assert_eq!(sent(&turn), vec![(2, s(":alice QUIT :Socket disconnected"))]);
    assert!(turn.close);
    assert!(!state.knows(1));
    assert!(!state.has_member("#a", 1));
}

#[test]
fn failed_read_quits_for_the_identity() {
    let mut state = two();
    let turn = on_read(&mut state, 2, Read::Failed);
    assert_eq!(sent(&turn), vec![(1, s(":bob QUIT :Connection reset"))]);
    assert!(turn.close);
    assert!(!state.knows(2));
}

#[test]
fn end_of_stream_before_registration_leaves_nothing_behind() {
    let mut state = two();
    state.connect(3);
    on_read(&mut state, 3, line("NICK carol\r\n"));
    let turn = on_read(&mut state, 3, Read::Closed);
    assert_eq!(turn, Turn { deliveries: vec![], close: true, save: true });
    assert!(!state.knows(3));
    assert_eq!(state.identities().len(), 2);
}

#[test]
fn end_of_stream_of_an_unknown_number_changes_nothing() {
    let mut state = two();
    let turn = on_read(&mut state, 9, Read::Closed);
    assert_eq!(turn, Turn { deliveries: vec![], close: true, save: true });
    assert_eq!(state.identities().len(), 2);
}

#[test]
fn line_at_the_limit_quits_for_the_identity() {
    assert_eq!(LINE_LIMIT, 512);
    let mut state = two();
    let text = format!("PRIVMSG bob :{}\r\n", "x".repeat(512 - 15));
    assert_eq!(text.len(), 512);
    let turn = on_read(&mut state, 1, Read::Line(text));
    assert_eq!(sent(&turn), vec![(2, s(":alice QUIT :Line too long"))]);
    assert!(turn.close);
    assert!(!state.knows(1));
}

#[test]
fn line_below_the_limit_is_taken() {
    let mut state = two();
    let body = "x".repeat(511 - 15);
    let text = format!("PRIVMSG bob :{}\r\n", body);
    assert_eq!(text.len(), 511);
    let turn = on_read(&mut state, 1, Read::Line(text));
    assert_eq!(sent(&turn), vec![(2, format!(":alice PRIVMSG bob :{}", body))]);
    assert!(!turn.close);
}

#[test]
fn limit_counts_bytes() {
    let mut state = two();
    let text = format!("PRIVMSG bob :{}\r\n", "\u{e9}".repeat(249));
    assert!(text.chars().count() < 512);
    assert_eq!(text.len(), 513);
    let turn = on_read(&mut state, 1, Read::Line(text));
    assert!(turn.close);
}

#[test]
fn state_file_is_the_first_argument() {
    assert_eq!(parse_env_args(vec![s("state.db"), s("more")]), Ok(s("state.db")));
    assert_eq!(parse_env_args(vec![s("")]), Ok(s("")));
}

#[test]
fn no_argument_names_no_state_file() {
    assert_eq!(parse_env_args(vec![]), Err(ArgsError::MissingPath));
}

#[test]
fn parsed_command_is_applied() {
    let mut state = two();
    let command = Command {
        prefix: None,
        kind: CommandKind::PrivMsg { message_target: s("bob"), message_text: s("hi") },
    };
    let turn = on_parsed(&mut state, 1, Ok(command));
    assert_eq!(
        turn,
        Turn {
            deliveries: vec![Delivery { to: 2, line: s(":alice PRIVMSG bob :hi") }],
            close: false,
            save: true,
        }
    );
}

#[test]
fn parsed_quit_closes_only_where_it_is_applied() {
    let mut state = two();
    state.connect(3);
    let quit = || Command { prefix: None, kind: CommandKind::Quit { quit_message: None } };
    assert!(!on_parsed(&mut state, 3, Ok(quit())).close);
    assert!(on_parsed(&mut state, 1, Ok(quit())).close);
}

#[test]
fn parse_error_is_handed_on_as_a_line() {
    let mut state = two();
    let turn = on_parsed(&mut state, 1, Err(ParseError::MalformedCommand(s("x"))));
    assert_eq!(
        turn,
        Turn {
            deliveries: vec![Delivery { to: 1, line: s("Malformed/Empty Command: [x]") }],
            close: false,
            save: false,
        }
    );
}
