use irc::server::parser::{
    channels_from, join_from, nick_from, parse_verb, ping_from, prefix_from, privmsg_from,
    try_parse_from_line, user_from, which_verb, Verb,
};
use irc::{Command, CommandKind};

#[test]
fn parse_prefix() {
    let mut line = ":ecs.vuw.ac.nz JOIN #foo,#bar fubar,foobar".to_owned();
    assert_eq!(
        try_parse_from_line(&mut line).unwrap(),
        Command {
            prefix: Some("ecs.vuw.ac.nz".to_owned()),
            kind: CommandKind::Join {
                channels: vec!["#foo".to_string(), "#bar".to_string()],
                keys: Some(vec!["fubar".to_string(), "foobar".to_string()]),
            }
        }
    );

    let mut line = ":nvx-23!nvx@ecs.vuw.ac.nz JOIN #foo,#bar fubar,foobar".to_owned();
    assert_eq!(
        try_parse_from_line(&mut line).unwrap(),
        Command {
            prefix: Some("nvx-23!nvx@ecs.vuw.ac.nz".to_owned()),
            kind: CommandKind::Join {
                channels: vec!["#foo".to_string(), "#bar".to_string()],
                keys: Some(vec!["fubar".to_string(), "foobar".to_string()]),
            }
        }
    );

    let mut line = ":[{|21lu}]!wilkesluna@192.523.3.21 JOIN #foo,#bar fubar,foobar".to_owned();
    assert_eq!(
        try_parse_from_line(&mut line).unwrap(),
        Command {
            prefix: Some("[{|21lu}]!wilkesluna@192.523.3.21".to_owned()),
            kind: CommandKind::Join {
                channels: vec!["#foo".to_string(), "#bar".to_string()],
                keys: Some(vec!["fubar".to_string(), "foobar".to_string()]),
            }
        }
    );
}

#[test]
#[should_panic]
fn parse_bad_prefix() {
    // too long
    let mut line = ":lunaamethystwilkes JOIN #foo,#bar fubar,foobar".to_owned();
    try_parse_from_line(&mut line).unwrap();

    // digit in first location
    let mut line = ":03luna JOIN #foo,#bar fubar,foobar".to_owned();
    try_parse_from_line(&mut line).unwrap();

    // user without host
    let mut line = ":wilkesluna!abc JOIN #foo,#bar fubar,foobar".to_owned();
    try_parse_from_line(&mut line).unwrap();

    // invalid ip4addr
    let mut line = ":wilkesluna@1.1.1.1.1 JOIN #foo,#bar fubar,foobar".to_owned();
    try_parse_from_line(&mut line).unwrap();

    // invalid ip6addr
    let mut line = ":wilkesluna@019X JOIN #foo,#bar fubar,foobar".to_owned();
    try_parse_from_line(&mut line).unwrap();
}

#[test]
fn parse_join() {
    let mut line = "JOIN #foo,#bar fubar,foobar".to_owned();
    assert_eq!(
        try_parse_from_line(&mut line).unwrap(),
        Command {
            prefix: None,
            kind: CommandKind::Join {
                channels: vec!["#foo".to_string(), "#bar".to_string()],
                keys: Some(vec!["fubar".to_string(), "foobar".to_string()]),
            }
        }
    );

    let mut line = "JOIN 0".to_owned();
    assert_eq!(
        try_parse_from_line(&mut line).unwrap(),
        Command {
            prefix: None,
            kind: CommandKind::Join {
                channels: vec!["0".to_string()],
                keys: None,
            }
        }
    );
}

#[test]
#[should_panic]
fn parse_join_no_params() {
    let mut line = "JOIN".to_owned();
    try_parse_from_line(&mut line).unwrap();
}

#[test]
#[should_panic]
fn parse_join_too_many_params() {
    let mut line = "JOIN #foo,#bar fubar,foobar foooobar".to_owned();
    try_parse_from_line(&mut line).unwrap();
}

#[test]
#[should_panic]
fn parse_invalid_channel() {
    let mut line = "JOIN foo,#bar".to_owned();
    try_parse_from_line(&mut line).unwrap();
}

fn parse(line: &str) -> Result<Command, irc::ParseError> {
    let mut line = line.to_owned();
    try_parse_from_line(&mut line)
}

fn kind(line: &str) -> CommandKind {
    parse(line).unwrap().kind
}

fn malformed(text: &str) -> Result<Command, irc::ParseError> {
    Err(irc::ParseError::MalformedCommand(text.to_owned()))
}

fn strings(items: &[&str]) -> Vec<String> {
    items.iter().map(|s| s.to_string()).collect()
}

#[test]
fn parsing_leaves_the_line_as_it_was() {
    let mut line = ":ecs.vuw.ac.nz JOIN #foo,#bar fubar,foobar".to_owned();
    try_parse_from_line(&mut line).unwrap();
    assert_eq!(line, ":ecs.vuw.ac.nz JOIN #foo,#bar fubar,foobar");
}

#[test]
fn prefix_is_kept_without_its_colon() {
    assert_eq!(
        parse(":nvx-23!nvx@ecs.vuw.ac.nz JOIN #foo").unwrap(),
        Command {
            prefix: Some("nvx-23!nvx@ecs.vuw.ac.nz".to_owned()),
            kind: CommandKind::Join { channels: strings(&["#foo"]), keys: None },
        }
    );
}

#[test]
fn bad_prefix_is_malformed_and_names_the_origin() {
    assert_eq!(parse(":wilkesluna!abc JOIN #foo"), malformed("wilkesluna!abc"));
    assert_eq!(parse(":wilkesluna@019X JOIN #foo"), malformed("wilkesluna@019X"));
    assert_eq!(parse(":-a JOIN #foo"), malformed("-a"));
    assert_eq!(parse(":a-. JOIN #foo"), malformed("a-."));
    assert_eq!(parse(": JOIN #foo"), malformed(""));
}

#[test]
fn prefix_alone_is_malformed() {
    assert_eq!(parse(":ecs.vuw.ac.nz"), malformed(""));
}

#[test]
fn empty_line_is_malformed() {
    assert_eq!(parse(""), malformed(""));
}

#[test]
fn join_without_parameters_is_malformed() {
    assert_eq!(parse("JOIN"), malformed(""));
}

#[test]
fn join_with_too_many_parameters_is_malformed() {
    assert_eq!(parse("JOIN #foo,#bar fubar,foobar foooobar"), malformed(""));
    assert_eq!(parse("JOIN #foo fubar extra and more"), malformed("and more"));
}

#[test]
fn join_with_a_bad_channel_names_the_first_bad_one() {
    assert_eq!(parse("JOIN foo,#bar"), malformed("foo"));
    assert_eq!(parse("JOIN #foo,bar,baz"), malformed("bar"));
    assert_eq!(parse("JOIN #foo,"), malformed(""));
    assert_eq!(parse("JOIN  #foo"), malformed(""));
}

#[test]
fn join_checks_the_channels_before_it_counts_the_parameters() {
    assert_eq!(parse("JOIN foo k extra"), malformed("foo"));
}

#[test]
fn join_takes_fewer_keys_than_channels() {
    assert_eq!(
        kind("JOIN #a,#b,#c k1"),
        CommandKind::Join { channels: strings(&["#a", "#b", "#c"]), keys: Some(strings(&["k1"])) }
    );
}

#[test]
fn join_takes_keys_as_they_are() {
    assert_eq!(
        kind("JOIN #a k1,,k3"),
        CommandKind::Join { channels: strings(&["#a"]), keys: Some(strings(&["k1", "", "k3"])) }
    );
}

#[test]
fn join_zero_takes_nothing_after_it() {
    assert_eq!(parse("JOIN 0 #foo"), malformed(""));
    assert_eq!(parse("JOIN 0 #foo bar baz"), malformed("bar baz"));
}

#[test]
fn join_zero_in_a_list_is_no_channel() {
    assert_eq!(parse("JOIN 0,#foo"), malformed("0"));
}

#[test]
fn join_takes_every_sigil() {
    assert_eq!(
        kind("JOIN #a,&b,+c,!ABCDEd"),
        CommandKind::Join { channels: strings(&["#a", "&b", "+c", "!ABCDEd"]), keys: None }
    );
}

#[test]
fn verb_is_read_in_any_case() {
    let expected = CommandKind::Join { channels: strings(&["#a"]), keys: None };
    assert_eq!(kind("join #a"), expected);
    assert_eq!(kind("JoIn #a"), expected);
    assert_eq!(kind("JOIN #a"), expected);
}

#[test]
fn verb_is_lowered_as_text_is() {
    assert_eq!(
        kind("NIC\u{212a} Wiz"),
        CommandKind::Nick { nickname: "Wiz".to_owned() }
    );
}

#[test]
fn unknown_verb_is_unrecognised_with_the_rest_of_the_line() {
    assert_eq!(
        parse("FOO bar baz"),
        Err(irc::ParseError::UnrecognisedCommand("foo bar baz".to_owned()))
    );
    assert_eq!(parse("FOO"), Err(irc::ParseError::UnrecognisedCommand("foo ".to_owned())));
    assert_eq!(
        parse(":ecs.vuw.ac.nz MODE #a +k  "),
        Err(irc::ParseError::UnrecognisedCommand("mode #a +k".to_owned()))
    );
    assert_eq!(parse(" JOIN #a"), Err(irc::ParseError::UnrecognisedCommand(" JOIN #a".to_owned())));
}

#[test]
fn nick_takes_one_nickname() {
    assert_eq!(kind("NICK Wiz"), CommandKind::Nick { nickname: "Wiz".to_owned() });
    assert_eq!(kind("nick [{|21lu}]"), CommandKind::Nick { nickname: "[{|21lu}]".to_owned() });
}

#[test]
fn nick_without_a_nickname_is_malformed() {
    assert_eq!(parse("NICK"), malformed(""));
}

#[test]
fn nick_with_a_bad_nickname_names_it() {
    assert_eq!(parse("NICK 3luna"), malformed("3luna"));
    assert_eq!(parse("NICK lunaamethystwilkes"), malformed("lunaamethystwilkes"));
    assert_eq!(parse("NICK "), malformed(""));
}

#[test]
fn nick_with_more_than_a_nickname_is_malformed() {
    assert_eq!(parse("NICK Wiz extra"), malformed(""));
    assert_eq!(parse("NICK Wiz extra more"), malformed("more"));
}

#[test]
fn user_takes_name_mode_star_and_real_name() {
    assert_eq!(
        kind("USER guest 0 * :Ronnie Reagan"),
        CommandKind::User {
            username: "guest".to_owned(),
            mode: 0,
            full_name: "Ronnie Reagan".to_owned(),
        }
    );
    assert_eq!(
        kind("USER guest 8 * :Ronnie"),
        CommandKind::User { username: "guest".to_owned(), mode: 8, full_name: "Ronnie".to_owned() }
    );
}

#[test]
fn user_keeps_the_spaces_inside_the_real_name() {
    assert_eq!(
        kind("USER guest 9 * : Ronnie  Reagan :jr"),
        CommandKind::User {
            username: "guest".to_owned(),
            mode: 9,
            full_name: " Ronnie  Reagan :jr".to_owned(),
        }
    );
}

#[test]
fn user_with_anything_missing_or_wrong_is_malformed_as_a_whole() {
    assert_eq!(parse("USER"), malformed(""));
    assert_eq!(parse("USER guest 0 *"), malformed("guest 0 *"));
    assert_eq!(parse("USER guest 0 * Ronnie"), malformed("guest 0 * Ronnie"));
    assert_eq!(parse("USER guest 0 * :"), malformed("guest 0 * :"));
    assert_eq!(parse("USER guest 10 * :Ronnie"), malformed("guest 10 * :Ronnie"));
    assert_eq!(parse("USER guest x * :Ronnie"), malformed("guest x * :Ronnie"));
    assert_eq!(parse("USER guest 0 + :Ronnie"), malformed("guest 0 + :Ronnie"));
    assert_eq!(parse("USER gu\u{1}est 0 * :Ronnie"), malformed("gu\u{1}est 0 * :Ronnie"));
    assert_eq!(parse("USER  0 * :Ronnie"), malformed(" 0 * :Ronnie"));
}

#[test]
fn ping_takes_one_host_or_two() {
    assert_eq!(
        kind("PING tolsun.oulu.fi"),
        CommandKind::Ping { source_server: "tolsun.oulu.fi".to_owned(), target_server: None }
    );
    assert_eq!(
        kind("PING WiZ tolsun.oulu.fi"),
        CommandKind::Ping {
            source_server: "WiZ".to_owned(),
            target_server: Some("tolsun.oulu.fi".to_owned()),
        }
    );
    assert_eq!(
        kind("PING 192.168.0.1 2001:db8:0:0:0:0:2:1"),
        CommandKind::Ping {
            source_server: "192.168.0.1".to_owned(),
            target_server: Some("2001:db8:0:0:0:0:2:1".to_owned()),
        }
    );
}

#[test]
fn ping_with_a_bad_host_names_it() {
    assert_eq!(parse("PING"), malformed(""));
    assert_eq!(parse("PING -a"), malformed("-a"));
    assert_eq!(parse("PING a.b c_d"), malformed("c_d"));
}

#[test]
fn ping_with_more_than_two_hosts_is_malformed() {
    assert_eq!(parse("PING a b c"), malformed(""));
    assert_eq!(parse("PING a b c d e"), malformed("d e"));
}

#[test]
fn privmsg_takes_a_target_and_the_rest_as_text() {
    assert_eq!(
        kind("PRIVMSG Angel :yes I'm receiving it !"),
        CommandKind::PrivMsg {
            message_target: "Angel".to_owned(),
            message_text: "yes I'm receiving it !".to_owned(),
        }
    );
    assert_eq!(
        kind("PRIVMSG #foo :Hello  there"),
        CommandKind::PrivMsg {
            message_target: "#foo".to_owned(),
            message_text: "Hello  there".to_owned(),
        }
    );
}

#[test]
fn privmsg_text_needs_no_colon_and_loses_one_only() {
    assert_eq!(
        kind("PRIVMSG Angel hello there"),
        CommandKind::PrivMsg {
            message_target: "Angel".to_owned(),
            message_text: "hello there".to_owned(),
        }
    );
    assert_eq!(
        kind("PRIVMSG Angel ::-)"),
        CommandKind::PrivMsg { message_target: "Angel".to_owned(), message_text: ":-)".to_owned() }
    );
}

#[test]
fn privmsg_without_text_has_empty_text() {
    assert_eq!(
        kind("PRIVMSG Angel"),
        CommandKind::PrivMsg { message_target: "Angel".to_owned(), message_text: "".to_owned() }
    );
    assert_eq!(
        kind("PRIVMSG Angel :"),
        CommandKind::PrivMsg { message_target: "Angel".to_owned(), message_text: "".to_owned() }
    );
}

#[test]
fn privmsg_with_a_bad_target_names_it() {
    assert_eq!(parse("PRIVMSG"), malformed(""));
    assert_eq!(parse("PRIVMSG 3luna :hi"), malformed("3luna"));
    assert_eq!(parse("PRIVMSG #a,#b :hi"), malformed("#a,#b"));
}

#[test]
fn quit_takes_a_message_or_none() {
    assert_eq!(kind("QUIT"), CommandKind::Quit { quit_message: None });
    assert_eq!(
        kind("QUIT :Gone to have lunch"),
        CommandKind::Quit { quit_message: Some("Gone to have lunch".to_owned()) }
    );
    assert_eq!(kind("quit bye"), CommandKind::Quit { quit_message: Some("bye".to_owned()) });
    assert_eq!(kind("QUIT :"), CommandKind::Quit { quit_message: Some("".to_owned()) });
}

#[test]
fn text_after_the_verb_loses_the_white_space_at_its_end() {
    assert_eq!(
        kind("QUIT :bye  \t"),
        CommandKind::Quit { quit_message: Some("bye".to_owned()) }
    );
    assert_eq!(kind("QUIT  "), CommandKind::Quit { quit_message: None });
}

#[test]
fn parse_error_says_what_it_is() {
    assert_eq!(
        irc::ParseError::UnrecognisedCommand("foo bar".to_owned()).message(),
        "Unrecognised Command: [foo bar]"
    );
    assert_eq!(
        irc::ParseError::MalformedCommand("".to_owned()).message(),
        "Malformed/Empty Command: []"
    );
}

#[test]
fn origin_is_taken_where_either_shape_fits() {
    assert_eq!(prefix_from(":a.b", true, false), Ok("a.b".to_owned()));
    assert_eq!(prefix_from(":wiz!u@h", false, true), Ok("wiz!u@h".to_owned()));
    assert_eq!(prefix_from(":x", true, true), Ok("x".to_owned()));
    assert_eq!(
        prefix_from(":x y", false, false),
        Err(irc::ParseError::MalformedCommand("x y".to_owned()))
    );
    assert_eq!(prefix_from("x", true, false), Ok("x".to_owned()));
}

#[test]
fn channels_are_all_taken_or_the_first_bad_one_is_named() {
    let names = strings(&["#a", "b", "c"]);
    assert_eq!(channels_from(names.clone(), &vec![true, true, true]), Ok(names.clone()));
    assert_eq!(
        channels_from(names.clone(), &vec![true, false, false]),
        Err(irc::ParseError::MalformedCommand("b".to_owned()))
    );
    assert_eq!(
        channels_from(names.clone(), &vec![false, true, true]),
        Err(irc::ParseError::MalformedCommand("#a".to_owned()))
    );
    assert_eq!(channels_from(names.clone(), &vec![true]), Ok(names.clone()));
    assert_eq!(channels_from(names.clone(), &vec![true, true, true, false]), Ok(names));
}

#[test]
fn join_is_built_from_its_parameters_and_its_channels() {
    let bad = || Err(irc::ParseError::MalformedCommand("x".to_owned()));
    assert_eq!(
        join_from(&strings(&["#a,#b", "k"]), Ok(strings(&["#a", "#b"]))),
        Ok(CommandKind::Join { channels: strings(&["#a", "#b"]), keys: Some(strings(&["k"])) })
    );
    assert_eq!(
        join_from(&strings(&["#a"]), Ok(strings(&["#a"]))),
        Ok(CommandKind::Join { channels: strings(&["#a"]), keys: None })
    );
    assert_eq!(
        join_from(&strings(&["x,#b", "k", "more"]), bad()),
        Err(irc::ParseError::MalformedCommand("x".to_owned()))
    );
    assert_eq!(
        join_from(&strings(&["#a", "k", "more", "and", "more"]), Ok(strings(&["#a"]))),
        Err(irc::ParseError::MalformedCommand("and more".to_owned()))
    );
    assert_eq!(
        join_from(&strings(&["0"]), bad()),
        Ok(CommandKind::Join { channels: strings(&["0"]), keys: None })
    );
    assert_eq!(
        join_from(&strings(&["0", "#a", "b"]), bad()),
        Err(irc::ParseError::MalformedCommand("b".to_owned()))
    );
    assert_eq!(
        join_from(&strings(&[]), Ok(strings(&[]))),
        Err(irc::ParseError::MalformedCommand("".to_owned()))
    );
}

#[test]
fn nick_is_built_from_its_parameters() {
    assert_eq!(
        nick_from(&strings(&["Wiz"]), true),
        Ok(CommandKind::Nick { nickname: "Wiz".to_owned() })
    );
    assert_eq!(
        nick_from(&strings(&["Wiz"]), false),
        Err(irc::ParseError::MalformedCommand("Wiz".to_owned()))
    );
    assert_eq!(
        nick_from(&strings(&["Wiz", "a", "b"]), true),
        Err(irc::ParseError::MalformedCommand("b".to_owned()))
    );
    assert_eq!(
        nick_from(&strings(&["Wiz", "a", "b"]), false),
        Err(irc::ParseError::MalformedCommand("Wiz".to_owned()))
    );
    assert_eq!(
        nick_from(&strings(&[]), true),
        Err(irc::ParseError::MalformedCommand("".to_owned()))
    );
}

#[test]
fn user_is_built_from_its_text() {
    assert_eq!(
        user_from("guest 3 * :Ronnie Reagan", true),
        Ok(CommandKind::User {
            username: "guest".to_owned(),
            mode: 3,
            full_name: "Ronnie Reagan".to_owned(),
        })
    );
    assert_eq!(
        user_from("guest 3 * :Ronnie Reagan", false),
        Err(irc::ParseError::MalformedCommand("guest 3 * :Ronnie Reagan".to_owned()))
    );
    assert_eq!(
        user_from("guest 3 *", true),
        Err(irc::ParseError::MalformedCommand("guest 3 *".to_owned()))
    );
}

#[test]
fn ping_is_built_from_its_text() {
    assert_eq!(
        ping_from("a", true, false),
        Ok(CommandKind::Ping { source_server: "a".to_owned(), target_server: None })
    );
    assert_eq!(
        ping_from("a b", true, true),
        Ok(CommandKind::Ping {
            source_server: "a".to_owned(),
            target_server: Some("b".to_owned()),
        })
    );
    assert_eq!(ping_from("a b", false, true), Err(irc::ParseError::MalformedCommand("a".to_owned())));
    assert_eq!(ping_from("a b", true, false), Err(irc::ParseError::MalformedCommand("b".to_owned())));
    assert_eq!(
        ping_from("a b c d", true, true),
        Err(irc::ParseError::MalformedCommand("d".to_owned()))
    );
}

#[test]
fn privmsg_is_built_from_its_text() {
    assert_eq!(
        privmsg_from("bob :hi there", true),
        Ok(CommandKind::PrivMsg {
            message_target: "bob".to_owned(),
            message_text: "hi there".to_owned(),
        })
    );
    assert_eq!(
        privmsg_from("bob :hi there", false),
        Err(irc::ParseError::MalformedCommand("bob".to_owned()))
    );
}

#[test]
fn verb_in_lower_case_picks_the_rules() {
    assert_eq!(
        parse_verb("quit", &strings(&[":so", "long"])),
        Ok(CommandKind::Quit { quit_message: Some("so long".to_owned()) })
    );
    assert_eq!(
        parse_verb("QUIT", &strings(&[":so", "long"])),
        Err(irc::ParseError::UnrecognisedCommand("QUIT :so long".to_owned()))
    );
    assert_eq!(
        parse_verb("", &strings(&[])),
        Err(irc::ParseError::UnrecognisedCommand(" ".to_owned()))
    );
}

#[test]
fn six_words_name_a_verb() {
    assert_eq!(which_verb("join"), Some(Verb::Join));
    assert_eq!(which_verb("nick"), Some(Verb::Nick));
    assert_eq!(which_verb("user"), Some(Verb::User));
    assert_eq!(which_verb("ping"), Some(Verb::Ping));
    assert_eq!(which_verb("privmsg"), Some(Verb::PrivMsg));
    assert_eq!(which_verb("quit"), Some(Verb::Quit));
    assert_eq!(which_verb("JOIN"), None);
    assert_eq!(which_verb("part"), None);
    assert_eq!(which_verb("joinn"), None);
    assert_eq!(which_verb(""), None);
}
