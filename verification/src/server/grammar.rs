//! The shapes that the tokens of a line must have.
//!
//! Each shape is written down once, as a regular expression, and a token has
//! the shape when the expression matches it. The expressions are anchored at
//! both ends, so they speak of the whole token. The longer ones are written
//! over several lines, with `(?x)` in front, which has the white space and
//! the comments in them ignored.

use vstd::prelude::*;
use crate::server::parser::{ParseError, ParseErrorView};

verus! {

/// A nickname: one to nine characters, the first a letter or one of
/// ``[ \ ] ^ _ ` { | }``, the others letters, digits, `-` or the same special
/// characters.
pub const NICKNAME: &'static str =
    r"^[A-Za-z\x5B-\x60\x7B-\x7D][\-A-Za-z0-9\x5B-\x60\x7B-\x7D]{0,8}$";

/// A server name: short names separated by dots, each made of letters and
/// digits, with hyphens inside only.
pub const SERVERNAME: &'static str = r"(?x)^
    [A-Za-z0-9](?:[\-A-Za-z0-9]*[A-Za-z0-9])?
    (?:\.[A-Za-z0-9](?:[\-A-Za-z0-9]*[A-Za-z0-9])?)*
$";

/// A host: a server name, or an address written out, IPv4 in dotted decimals
/// or IPv6 in eight groups of hexadecimal digits (or its form that ends in
/// an IPv4 address).
pub const HOST: &'static str = r"(?x)^(?:
    [A-Za-z0-9](?:[\-A-Za-z0-9]*[A-Za-z0-9])?
    (?:\.[A-Za-z0-9](?:[\-A-Za-z0-9]*[A-Za-z0-9])?)*      # a server name
    | (?:[0-9]{1,3}\.){3}[0-9]{1,3}                       # or IPv4
    | [0-9A-Fa-f]+(?::[0-9A-Fa-f]+){7}                    # or IPv6
    | 0:0:0:0:0:(?:0|FFFF):(?:[0-9]{1,3}\.){3}[0-9]{1,3}  # or IPv6 ending in IPv4
)$";

/// The origin of a line that is no server name: a nickname, then `!` and a
/// user where there is one, then `@` and a host where there is one.
pub const NICKNAME_ORIGIN: &'static str = r"(?x)^
    [A-Za-z\x5B-\x60\x7B-\x7D][\-A-Za-z0-9\x5B-\x60\x7B-\x7D]{0,8}             # a nickname
    (?:![\x01-\x09\x0B-\x0C\x0E-\x1F\x21-\x2B\x2D-\x39\x3B-\xFF]+)?             # ! and a user
    (?:@(?:                                                                  # @ and a host
        [A-Za-z0-9](?:[\-A-Za-z0-9]*[A-Za-z0-9])?
        (?:\.[A-Za-z0-9](?:[\-A-Za-z0-9]*[A-Za-z0-9])?)*
        | (?:[0-9]{1,3}\.){3}[0-9]{1,3}
        | [0-9A-Fa-f]+(?::[0-9A-Fa-f]+){7}
        | 0:0:0:0:0:(?:0|FFFF):(?:[0-9]{1,3}\.){3}[0-9]{1,3}
    ))?
$";

/// A channel name: `#`, `&` or `+`, or `!` and five capitals or digits, and
/// then one to two hundred characters, none of them NUL, BELL, LF, CR, a
/// space or a comma.
pub const CHANNEL: &'static str = r"^(?:[#&+]|![A-Z0-9]{5})[^\x00\x07\x0A\x0D\x20,]{1,200}$";

/// A user name: one or more characters, none of them a space or a control
/// character.
pub const USERNAME: &'static str = r"^[^\x00-\x20\x7F]+$";

/// Whether the regular expression `pattern` is well formed and matches
/// somewhere in `haystack`. What this is for given texts is the regex
/// crate's to say; here it is only a name for that answer, which depends on
/// the two texts and on nothing else.
pub uninterp spec fn regex_is_match(pattern: Seq<char>, haystack: Seq<char>) -> bool;

/// Compiles `pattern` with `regex::Regex::new` and searches `haystack` with
/// `Regex::is_match`. Believed, not proved: the answer is
/// [`regex_is_match`] of the two texts, and a pattern that does not compile
/// matches nothing.
#[verifier::external_body]
fn pattern_matches(pattern: &str, haystack: &str) -> (hit: bool)
    ensures
        hit == regex_is_match(pattern@, haystack@),
{
    match regex::Regex::new(pattern) {
        Ok(re) => re.is_match(haystack),
        Err(_) => false,
    }
}

/// The view of a result: the view of what it holds, on either side.
pub open spec fn view_of<T: View, E: View>(r: Result<T, E>) -> Result<T::V, E::V> {
    match r {
        Ok(t) => Ok(t@),
        Err(e) => Err(e@),
    }
}

/// What becomes of a token once it is known whether it has the shape it
/// must have: the token itself where it has, else the token as malformed.
pub open spec fn accepted(token: Seq<char>, fits: bool) -> Result<Seq<char>, ParseErrorView> {
    if fits {
        Ok(token)
    } else {
        Err(ParseErrorView::MalformedCommand(token))
    }
}

/// What checking `token` against `pattern` gives.
pub open spec fn checked(pattern: Seq<char>, token: Seq<char>) -> Result<
    Seq<char>,
    ParseErrorView,
> {
    accepted(token, regex_is_match(pattern, token))
}

/// Hands the token back where it fits, and reports it as malformed where
/// not.
pub fn accept(token: &str, fits: bool) -> (r: Result<String, ParseError>)
    ensures
        view_of(r) == accepted(token@, fits),
{
    if fits {
        Ok(token.to_owned())
    } else {
        Err(ParseError::MalformedCommand(token.to_owned()))
    }
}

/// Hands `haystack` back where `pattern` matches it, and reports it as
/// malformed where not.
pub fn regex_match(haystack: &str, pattern: &str) -> (r: Result<String, ParseError>)
    ensures
        view_of(r) == checked(pattern@, haystack@),
{
    accept(haystack, pattern_matches(pattern, haystack))
}

/// Accepts a server name.
pub fn parse_servername(word: &str) -> (r: Result<String, ParseError>)
    ensures
        view_of(r) == checked(SERVERNAME@, word@),
{
    regex_match(word, SERVERNAME)
}

/// Accepts an origin that begins with a nickname.
pub fn parse_nickname_etc_for_prefix(word: &str) -> (r: Result<String, ParseError>)
    ensures
        view_of(r) == checked(NICKNAME_ORIGIN@, word@),
{
    regex_match(word, NICKNAME_ORIGIN)
}

/// Accepts a channel name.
pub fn parse_channel(channel: &str) -> (r: Result<String, ParseError>)
    ensures
        view_of(r) == checked(CHANNEL@, channel@),
{
    regex_match(channel, CHANNEL)
}

/// Accepts a nickname.
pub fn parse_nickname(word: &str) -> (r: Result<String, ParseError>)
    ensures
        view_of(r) == checked(NICKNAME@, word@),
{
    regex_match(word, NICKNAME)
}

/// Accepts a host.
pub fn parse_host(word: &str) -> (r: Result<String, ParseError>)
    ensures
        view_of(r) == checked(HOST@, word@),
{
    regex_match(word, HOST)
}

} // verus!
