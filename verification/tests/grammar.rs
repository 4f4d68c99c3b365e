use irc::server::grammar::{
    accept, parse_channel, parse_host, parse_nickname, parse_nickname_etc_for_prefix,
    parse_servername, regex_match, CHANNEL, NICKNAME,
};
use irc::server::parser::ParseError;

#[test]
fn regex_match_hands_back_what_matches() {
    assert_eq!(regex_match("abc", "^a.c$"), Ok("abc".to_string()));
}

#[test]
fn regex_match_reports_what_does_not_match() {
    assert_eq!(
        regex_match("abd", "^a.c$"),
        Err(ParseError::MalformedCommand("abd".to_string()))
    );
}

#[test]
fn regex_match_with_a_broken_pattern_matches_nothing() {
    assert_eq!(
        regex_match("abc", "a(bc"),
        Err(ParseError::MalformedCommand("abc".to_string()))
    );
}

#[test]
fn nickname_has_one_to_nine_characters() {
    assert!(parse_nickname("a").is_ok());
    assert!(parse_nickname("abcdefghi").is_ok());
    assert!(parse_nickname("").is_err());
    assert!(parse_nickname("abcdefghij").is_err());
}

#[test]
fn nickname_begins_with_a_letter_or_a_special() {
    assert!(parse_nickname("[luna]").is_ok());
    assert!(parse_nickname("{luna|}").is_ok());
    assert!(parse_nickname("_x`^\\").is_ok());
    assert!(parse_nickname("3luna").is_err());
    assert!(parse_nickname("-luna").is_err());
}

#[test]
fn nickname_goes_on_with_letters_digits_hyphens_and_specials() {
    assert!(parse_nickname("nvx-23").is_ok());
    assert!(parse_nickname("a[1]-b").is_ok());
    assert!(parse_nickname("a.b").is_err());
    assert!(parse_nickname("a b").is_err());
    assert!(parse_nickname("a#b").is_err());
}

#[test]
fn nickname_is_handed_back_unchanged() {
    assert_eq!(parse_nickname("Wiz"), Ok("Wiz".to_string()));
    assert_eq!(
        parse_nickname("Wiz!"),
        Err(ParseError::MalformedCommand("Wiz!".to_string()))
    );
}

#[test]
fn servername_is_short_names_between_dots() {
    assert_eq!(parse_servername("ecs.vuw.ac.nz"), Ok("ecs.vuw.ac.nz".to_string()));
    assert!(parse_servername("localhost").is_ok());
    assert!(parse_servername("irc-1.example.org").is_ok());
    assert!(parse_servername("a").is_ok());
    assert!(parse_servername("").is_err());
    assert!(parse_servername("a..b").is_err());
    assert!(parse_servername(".a").is_err());
    assert!(parse_servername("a.").is_err());
}

#[test]
fn servername_has_hyphens_inside_only() {
    assert!(parse_servername("a-b").is_ok());
    assert!(parse_servername("a--b").is_ok());
    assert!(parse_servername("-a").is_err());
    assert!(parse_servername("a-").is_err());
    assert!(parse_servername("a.-b").is_err());
    assert!(parse_servername("a-.b").is_err());
}

#[test]
fn host_is_a_servername_or_an_address() {
    assert!(parse_host("irc.example.org").is_ok());
    assert!(parse_host("192.168.0.1").is_ok());
    assert!(parse_host("2001:db8:0:0:0:0:2:1").is_ok());
    assert!(parse_host("0:0:0:0:0:FFFF:10.0.0.1").is_ok());
    assert!(parse_host("0:0:0:0:0:0:10.0.0.1").is_ok());
    assert!(parse_host("1:2:3").is_err());
    assert!(parse_host("019X:1").is_err());
    assert!(parse_host("").is_err());
    assert!(parse_host("a b").is_err());
}

#[test]
fn origin_is_a_nickname_with_user_and_host_where_they_are_there() {
    assert!(parse_nickname_etc_for_prefix("wiz").is_ok());
    assert!(parse_nickname_etc_for_prefix("wiz!jto").is_ok());
    assert!(parse_nickname_etc_for_prefix("wiz@tolsun.oulu.fi").is_ok());
    assert!(parse_nickname_etc_for_prefix("wiz!jto@tolsun.oulu.fi").is_ok());
    assert!(parse_nickname_etc_for_prefix("wiz!jto@192.168.0.1").is_ok());
    assert!(parse_nickname_etc_for_prefix("wiz@2001:db8:0:0:0:0:2:1").is_ok());
    assert!(parse_nickname_etc_for_prefix("wiz!").is_err());
    assert!(parse_nickname_etc_for_prefix("wiz@").is_err());
    assert!(parse_nickname_etc_for_prefix("wilkesluna!abc").is_err());
    assert!(parse_nickname_etc_for_prefix("wiz@019X").is_ok());
    assert!(parse_nickname_etc_for_prefix("wiz@-x").is_err());
    assert!(parse_nickname_etc_for_prefix("wiz@1:2:3").is_err());
    assert!(parse_nickname_etc_for_prefix("03luna").is_err());
}

#[test]
fn channel_begins_with_a_sigil() {
    assert_eq!(parse_channel("#foo"), Ok("#foo".to_string()));
    assert!(parse_channel("&foo").is_ok());
    assert!(parse_channel("+foo").is_ok());
    assert!(parse_channel("!AB12Cfoo").is_ok());
    assert_eq!(
        parse_channel("foo"),
        Err(ParseError::MalformedCommand("foo".to_string()))
    );
    assert!(parse_channel("!ab12cfoo").is_err());
    assert!(parse_channel("!AB12C").is_err());
    assert!(parse_channel("#").is_err());
    assert!(parse_channel("").is_err());
}

#[test]
fn channel_holds_no_space_comma_or_control() {
    assert!(parse_channel("#a b").is_err());
    assert!(parse_channel("#a,b").is_err());
    assert!(parse_channel("#a\u{7}b").is_err());
    assert!(parse_channel("#a\rb").is_err());
    assert!(parse_channel("#a\nb").is_err());
    assert!(parse_channel("#a\0b").is_err());
    assert!(parse_channel("#a:b").is_ok());
    assert!(parse_channel("#\u{e9}t\u{e9}").is_ok());
}

#[test]
fn channel_has_at_most_two_hundred_characters_after_its_sigil() {
    let longest = format!("#{}", "a".repeat(200));
    let too_long = format!("#{}", "a".repeat(201));
    assert!(parse_channel(&longest).is_ok());
    assert!(parse_channel(&too_long).is_err());
}

#[test]
fn patterns_are_anchored_at_both_ends() {
    assert!(regex_match("x#foo", CHANNEL).is_err());
    assert!(regex_match("Wiz\n", NICKNAME).is_err());
}

#[test]
fn token_is_handed_back_or_reported() {
    assert_eq!(accept("abc", true), Ok("abc".to_string()));
    assert_eq!(accept("abc", false), Err(ParseError::MalformedCommand("abc".to_string())));
    assert_eq!(accept("", true), Ok("".to_string()));
}
