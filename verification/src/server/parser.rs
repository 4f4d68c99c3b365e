//! From one line of text to a [`Command`].
//!
//! A line is `[":" prefix SPACE] verb [parameters]`. It is cut at every
//! space; the first token names the origin where the line begins with a
//! colon, the next one is the verb whatever its case, and each verb has its
//! own rules for what follows. Nothing here touches the registries.

use vstd::prelude::*;
use vstd::string::*;
use crate::commands::{Command, CommandKind, CommandKindView, CommandView};
use crate::server::grammar::{
    accept, accepted, parse_channel, parse_host, parse_nickname, parse_nickname_etc_for_prefix,
    parse_servername, regex_is_match, regex_match, view_of, CHANNEL, HOST, NICKNAME,
    NICKNAME_ORIGIN, SERVERNAME, USERNAME,
};
use crate::text::{
    digit_char, join, join_str_iter, join_with_spaces, joined, rest, same_text, split, split_on,
    strip_leading, tokens_from, without_leading,
};

verus! {

/// Why a line is no command.
#[derive(Debug, PartialEq, Eq)]
pub enum ParseError {
    /// The verb is none of those known. Holds the verb in lower case, a
    /// space, and the rest of the line.
    UnrecognisedCommand(String),
    /// The line is empty, a parameter is missing or one too many, or a token
    /// has not the shape it must have. Holds the token or text at fault.
    MalformedCommand(String),
}

/// A [`ParseError`] with its text taken as a sequence of characters.
pub enum ParseErrorView {
    UnrecognisedCommand(Seq<char>),
    MalformedCommand(Seq<char>),
}

impl View for ParseError {
    type V = ParseErrorView;

    open spec fn view(&self) -> ParseErrorView {
        match self {
            ParseError::UnrecognisedCommand(s) => ParseErrorView::UnrecognisedCommand(s@),
            ParseError::MalformedCommand(s) => ParseErrorView::MalformedCommand(s@),
        }
    }
}

impl ParseError {
    /// The error in words.
    pub fn message(&self) -> (text: String)
        ensures
            text@ == self@.text(),
    {
        match self {
            ParseError::UnrecognisedCommand(s) => {
                let mut text = "Unrecognised Command: [".to_owned();
                text.append(s.as_str());
                text.append("]");
                text
            },
            ParseError::MalformedCommand(s) => {
                let mut text = "Malformed/Empty Command: [".to_owned();
                text.append(s.as_str());
                text.append("]");
                text
            },
        }
    }
}

impl ParseErrorView {
    /// The error in words.
    pub open spec fn text(self) -> Seq<char> {
        match self {
            ParseErrorView::UnrecognisedCommand(s) => "Unrecognised Command: ["@ + s + "]"@,
            ParseErrorView::MalformedCommand(s) => "Malformed/Empty Command: ["@ + s + "]"@,
        }
    }
}

/// The lower-case form of a text: what `str::to_lowercase` makes of it.
/// What that is for a given text is std's to say; here it is only a name
/// for it, which depends on the text and on nothing else.
pub uninterp spec fn lowercase_of(s: Seq<char>) -> Seq<char>;

/// `str::to_lowercase`. Believed, not proved: the text it gives is
/// [`lowercase_of`] the text it is given.
pub assume_specification[ str::to_lowercase ](s: &str) -> (r: String)
    ensures
        r@ == lowercase_of(s@),
;

/// The origin that a first token names, once it is known whether the token
/// without its colon is a server name and whether it begins with a
/// nickname: that text where it is either.
pub open spec fn prefix_given(token: Seq<char>, servername: bool, nickname: bool) -> Result<
    Seq<char>,
    ParseErrorView,
> {
    accepted(without_leading(token, ':'), servername || nickname)
}

/// The origin that a first token names.
pub open spec fn prefix_of(token: Seq<char>) -> Result<Seq<char>, ParseErrorView> {
    let origin = without_leading(token, ':');
    prefix_given(
        token,
        regex_is_match(SERVERNAME@, origin),
        regex_is_match(NICKNAME_ORIGIN@, origin),
    )
}

/// For each token, whether `pattern` matches it.
pub open spec fn fits_each(pattern: Seq<char>, tokens: Seq<Seq<char>>) -> Seq<bool> {
    Seq::new(tokens.len(), |i: int| regex_is_match(pattern, tokens[i]))
}

/// The index of the first `false` from `from` on; the length where there is
/// none.
pub open spec fn first_refused(fits: Seq<bool>, from: int) -> int
    decreases fits.len() - from,
{
    if from < 0 || from >= fits.len() {
        fits.len() as int
    } else if !fits[from] {
        from
    } else {
        first_refused(fits, from + 1)
    }
}

/// The names, once it is known of each whether it is a channel name: all
/// of them, or the first that is none. A name that nothing is known of
/// counts as a channel name.
pub open spec fn channels_given(names: Seq<Seq<char>>, fits: Seq<bool>) -> Result<
    Seq<Seq<char>>,
    ParseErrorView,
> {
    let bad = first_refused(fits, 0);
    if bad < fits.len() && bad < names.len() {
        Err(ParseErrorView::MalformedCommand(names[bad]))
    } else {
        Ok(names)
    }
}

/// The channel names in a list separated by commas, or the first of them
/// that is no channel name.
pub open spec fn channels_of(list: Seq<char>) -> Result<Seq<Seq<char>>, ParseErrorView> {
    channels_given(split(list, ','), fits_each(CHANNEL@, split(list, ',')))
}

/// What the parameters of a `JOIN` mean, once the first has been read as a
/// list of channels: `0` alone leaves every channel; else the channels are
/// those of the list, the keys those of the second parameter where there is
/// one, and a third parameter is one too many.
pub open spec fn join_given(
    params: Seq<Seq<char>>,
    listed: Result<Seq<Seq<char>>, ParseErrorView>,
) -> Result<CommandKindView, ParseErrorView> {
    if params.len() == 0 {
        Err(ParseErrorView::MalformedCommand(Seq::<char>::empty()))
    } else if params[0] == "0"@ {
        if params.len() > 1 {
            Err(ParseErrorView::MalformedCommand(joined(rest(params, 2))))
        } else {
            Ok(CommandKindView::Join { channels: seq!["0"@], keys: None })
        }
    } else {
        match listed {
            Err(e) => Err(e),
            Ok(channels) => if params.len() > 2 {
                Err(ParseErrorView::MalformedCommand(joined(rest(params, 3))))
            } else {
                Ok(
                    CommandKindView::Join {
                        channels,
                        keys: if params.len() == 2 {
                            Some(split(params[1], ','))
                        } else {
                            None
                        },
                    },
                )
            },
        }
    }
}

/// What the parameters of a `JOIN` mean.
pub open spec fn join_of(params: Seq<Seq<char>>) -> Result<CommandKindView, ParseErrorView> {
    join_given(
        params,
        if params.len() > 0 {
            channels_of(params[0])
        } else {
            Ok(Seq::empty())
        },
    )
}

/// What the parameters of a `NICK` mean, once it is known whether the first
/// is a nickname: that nickname, where nothing comes after it.
pub open spec fn nick_given(params: Seq<Seq<char>>, fits: bool) -> Result<
    CommandKindView,
    ParseErrorView,
> {
    if params.len() == 0 {
        Err(ParseErrorView::MalformedCommand(Seq::<char>::empty()))
    } else if !fits {
        Err(ParseErrorView::MalformedCommand(params[0]))
    } else if params.len() > 1 {
        Err(ParseErrorView::MalformedCommand(joined(rest(params, 2))))
    } else {
        Ok(CommandKindView::Nick { nickname: params[0] })
    }
}

/// What the parameters of a `NICK` mean.
pub open spec fn nick_of(params: Seq<Seq<char>>) -> Result<CommandKindView, ParseErrorView> {
    nick_given(params, params.len() > 0 && regex_is_match(NICKNAME@, params[0]))
}

/// Whether `c` is one of the ten decimal digits.
pub open spec fn is_digit(c: char) -> bool {
    '0' <= c <= '9'
}

/// The number that a decimal digit stands for.
pub open spec fn digit_value(c: char) -> u8 {
    (c as u8 - '0' as u8) as u8
}

/// What the text after `USER` means, once it is known whether its first
/// token is a user name: `<user> <mode> * :<real name>`, the mode one
/// digit, the real name running to the end of the text and not empty.
pub open spec fn user_given(line: Seq<char>, fits: bool) -> Result<
    CommandKindView,
    ParseErrorView,
> {
    let tokens = split(line, ' ');
    if tokens.len() >= 4 && fits && tokens[1].len() == 1 && is_digit(tokens[1][0]) && tokens[2]
        == "*"@ && tokens[3].len() > 0 && tokens[3][0] == ':' && join(tokens.skip(3), ' ').len()
        > 1 {
        Ok(
            CommandKindView::User {
                username: tokens[0],
                mode: digit_value(tokens[1][0]),
                full_name: join(tokens.skip(3), ' ').skip(1),
            },
        )
    } else {
        Err(ParseErrorView::MalformedCommand(line))
    }
}

/// What the text after `USER` means.
pub open spec fn user_of(line: Seq<char>) -> Result<CommandKindView, ParseErrorView> {
    user_given(line, regex_is_match(USERNAME@, split(line, ' ')[0]))
}

/// What the text after `PING` means, once it is known of its first two
/// tokens whether they are hosts: one host, or two, and no more.
pub open spec fn ping_given(line: Seq<char>, source_fits: bool, target_fits: bool) -> Result<
    CommandKindView,
    ParseErrorView,
> {
    let tokens = split(line, ' ');
    if !source_fits {
        Err(ParseErrorView::MalformedCommand(tokens[0]))
    } else if tokens.len() == 1 {
        Ok(CommandKindView::Ping { source_server: tokens[0], target_server: None })
    } else if !target_fits {
        Err(ParseErrorView::MalformedCommand(tokens[1]))
    } else if tokens.len() > 2 {
        Err(ParseErrorView::MalformedCommand(joined(rest(tokens, 3))))
    } else {
        Ok(CommandKindView::Ping { source_server: tokens[0], target_server: Some(tokens[1]) })
    }
}

/// What the text after `PING` means.
pub open spec fn ping_of(line: Seq<char>) -> Result<CommandKindView, ParseErrorView> {
    let tokens = split(line, ' ');
    ping_given(
        line,
        regex_is_match(HOST@, tokens[0]),
        tokens.len() > 1 && regex_is_match(HOST@, tokens[1]),
    )
}

/// What the text after `PRIVMSG` means, once it is known whether its first
/// token is a nickname or a channel: that target, and then the message,
/// which runs to the end of the text and may begin with a colon that is no
/// part of it.
pub open spec fn privmsg_given(line: Seq<char>, fits: bool) -> Result<
    CommandKindView,
    ParseErrorView,
> {
    let tokens = split(line, ' ');
    if fits {
        Ok(
            CommandKindView::PrivMsg {
                message_target: tokens[0],
                message_text: without_leading(join(rest(tokens, 1), ' '), ':'),
            },
        )
    } else {
        Err(ParseErrorView::MalformedCommand(tokens[0]))
    }
}

/// What the text after `PRIVMSG` means.
pub open spec fn privmsg_of(line: Seq<char>) -> Result<CommandKindView, ParseErrorView> {
    let target = split(line, ' ')[0];
    privmsg_given(line, regex_is_match(NICKNAME@, target) || regex_is_match(CHANNEL@, target))
}

/// What the text after `QUIT` means: the parting message, where there is
/// any text at all, without the colon it may begin with.
pub open spec fn quit_of(line: Seq<char>) -> Result<CommandKindView, ParseErrorView> {
    Ok(
        CommandKindView::Quit {
            quit_message: if line.len() == 0 {
                None
            } else {
                Some(without_leading(line, ':'))
            },
        },
    )
}

/// The verbs that are known.
#[derive(Debug, Clone, Copy, PartialEq, Eq)]
pub enum Verb {
    Join,
    Nick,
    User,
    Ping,
    PrivMsg,
    Quit,
}

/// The verb that a word in lower case names, if it names one.
pub open spec fn verb_named(word: Seq<char>) -> Option<Verb> {
    if word == "join"@ {
        Some(Verb::Join)
    } else if word == "nick"@ {
        Some(Verb::Nick)
    } else if word == "user"@ {
        Some(Verb::User)
    } else if word == "ping"@ {
        Some(Verb::Ping)
    } else if word == "privmsg"@ {
        Some(Verb::PrivMsg)
    } else if word == "quit"@ {
        Some(Verb::Quit)
    } else {
        None
    }
}

/// What a verb in lower case and its parameters mean. `JOIN` and `NICK`
/// read their parameters one by one; the other verbs read the rest of the
/// line as one text. A word that names no verb is handed back, with the
/// rest of the line, as unrecognised.
pub open spec fn verb_of(word: Seq<char>, params: Seq<Seq<char>>) -> Result<
    CommandKindView,
    ParseErrorView,
> {
    match verb_named(word) {
        Some(Verb::Join) => join_of(params),
        Some(Verb::Nick) => nick_of(params),
        Some(Verb::User) => user_of(joined(params)),
        Some(Verb::Ping) => ping_of(joined(params)),
        Some(Verb::PrivMsg) => privmsg_of(joined(params)),
        Some(Verb::Quit) => quit_of(joined(params)),
        None => Err(ParseErrorView::UnrecognisedCommand(word + " "@ + joined(params))),
    }
}

/// What the tokens of a line after its origin mean: the first is the verb,
/// in any case, and the others are its parameters.
pub open spec fn command_of(tokens: Seq<Seq<char>>) -> Result<CommandKindView, ParseErrorView> {
    if tokens.len() == 0 {
        Err(ParseErrorView::MalformedCommand(Seq::<char>::empty()))
    } else {
        verb_of(lowercase_of(tokens[0]), tokens.skip(1))
    }
}

/// What a line means.
pub open spec fn line_of(line: Seq<char>) -> Result<CommandView, ParseErrorView> {
    let tokens = split(line, ' ');
    if line.len() == 0 {
        Err(ParseErrorView::MalformedCommand(line))
    } else if line[0] == ':' {
        match prefix_of(tokens[0]) {
            Err(e) => Err(e),
            Ok(origin) => match command_of(tokens.skip(1)) {
                Err(e) => Err(e),
                Ok(kind) => Ok(CommandView { prefix: Some(origin), kind }),
            },
        }
    } else {
        match command_of(tokens) {
            Err(e) => Err(e),
            Ok(kind) => Ok(CommandView { prefix: None, kind }),
        }
    }
}

/// The tokens of a line after its origin, where it names one: the verb
/// and its parameters.
pub open spec fn body_of(line: Seq<char>) -> Seq<Seq<char>> {
    if line.len() > 0 && line[0] == ':' {
        split(line, ' ').skip(1)
    } else {
        split(line, ' ')
    }
}

/// The fields of a command are the tokens of its line: the origin is the
/// first token without its colon, and what the verb carries is its
/// parameters, cut at commas where they are lists, or the rest of the line
/// where it is text.
pub proof fn lemma_fields_are_tokens(line: Seq<char>)
    requires
        line_of(line) is Ok,
    ensures
        ({
            let command = line_of(line)->Ok_0;
            let first = split(line, ' ')[0];
            let params = body_of(line).skip(1);
            let text = split(joined(params), ' ');
            &&& body_of(line).len() >= 1
            &&& command.prefix == if line[0] == ':' {
                Some(first.skip(1))
            } else {
                None
            }
            &&& match command.kind {
                CommandKindView::Join { channels, keys } => if params[0] == "0"@ {
                    params.len() == 1 && channels == seq!["0"@] && keys is None
                } else {
                    &&& 1 <= params.len() <= 2
                    &&& channels == split(params[0], ',')
                    &&& keys == if params.len() == 2 {
                        Some(split(params[1], ','))
                    } else {
                        None
                    }
                },
                CommandKindView::Nick { nickname } => params.len() == 1 && nickname == params[0],
                CommandKindView::User { username, mode, full_name } => {
                    &&& text.len() >= 4
                    &&& username == text[0]
                    &&& text[1] == seq![digit_char(mode as int)]
                    &&& text[2] == "*"@
                    &&& seq![':'] + full_name == join(text.skip(3), ' ')
                },
                CommandKindView::Ping { source_server, target_server } => {
                    &&& 1 <= text.len() <= 2
                    &&& source_server == text[0]
                    &&& target_server == if text.len() == 2 {
                        Some(text[1])
                    } else {
                        None
                    }
                },
                CommandKindView::PrivMsg { message_target, message_text } => {
                    &&& message_target == text[0]
                    &&& message_text == without_leading(join(text.skip(1), ' '), ':')
                },
                CommandKindView::Quit { quit_message } => quit_message == if joined(params).len()
                    == 0 {
                    None
                } else {
                    Some(without_leading(joined(params), ':'))
                },
            }
        }),
{
    let tokens = split(line, ' ');
    crate::text::lemma_split_nonempty(line, ' ');
    if line[0] == ':' {
        crate::text::lemma_first_piece_begins_the_text(line, ' ');
    }
    let params = body_of(line).skip(1);
    let text = split(joined(params), ' ');
    crate::text::lemma_split_nonempty(joined(params), ' ');
    match line_of(line)->Ok_0.kind {
        CommandKindView::User { username, mode, full_name } => {
            let tail = join(text.skip(3), ' ');
            assert(tail =~= seq![':'] + tail.skip(1)) by {
                crate::text::lemma_join_begins_with_first(text.skip(3), ' ');
            }
            assert(text[1] =~= seq![digit_char(mode as int)]);
        },
        _ => {},
    }
}

/// Reads one line as a command. The line is left as it was.
pub fn try_parse_from_line(line: &mut str) -> (r: Result<Command, ParseError>)
    ensures
        final(line)@ == old(line)@,
        view_of(r) == line_of(old(line)@),
{
    parse_line(&*line)
}

/// Reads one line as a command.
pub fn parse_line(line: &str) -> (r: Result<Command, ParseError>)
    ensures
        view_of(r) == line_of(line@),
{
    let n: usize = line.unicode_len();
    if n == 0 {
        return Err(ParseError::MalformedCommand(line.to_owned()));
    }
    let tokens = split_on(line, ' ');
    proof {
        crate::text::lemma_split_nonempty(line@, ' ');
    }
    if line.get_char(0) == ':' {
        let prefix = match parse_prefix(tokens[0].as_str()) {
            Ok(prefix) => prefix,
            Err(e) => {
                return Err(e);
            },
        };
        match parse_command(&tokens, 1) {
            Ok(kind) => Ok(Command { prefix: Some(prefix), kind }),
            Err(e) => Err(e),
        }
    } else {
        assert(rest(tokens.deep_view(), 0) =~= tokens.deep_view());
        match parse_command(&tokens, 0) {
            Ok(kind) => Ok(Command { prefix: None, kind }),
            Err(e) => Err(e),
        }
    }
}

/// Reads the first token of a line that begins with a colon as its origin:
/// a server name, or a nickname with what may follow it.
pub fn parse_prefix(prefix: &str) -> (r: Result<String, ParseError>)
    ensures
        view_of(r) == prefix_of(prefix@),
{
    let origin = strip_leading(prefix, ':');
    let servername = parse_servername(origin.as_str()).is_ok();
    let nickname = parse_nickname_etc_for_prefix(origin.as_str()).is_ok();
    prefix_from(prefix, servername, nickname)
}

/// The origin that a first token names, given whether the token without
/// its colon is a server name and whether it begins with a nickname.
pub fn prefix_from(prefix: &str, servername: bool, nickname: bool) -> (r: Result<
    String,
    ParseError,
>)
    ensures
        view_of(r) == prefix_given(prefix@, servername, nickname),
{
    let origin = strip_leading(prefix, ':');
    accept(origin.as_str(), servername || nickname)
}

/// Reads the tokens from index `from` on as a verb and its parameters.
pub fn parse_command(tokens: &Vec<String>, from: usize) -> (r: Result<CommandKind, ParseError>)
    ensures
        view_of(r) == command_of(rest(tokens.deep_view(), from as int)),
{
    if from >= tokens.len() {
        return Err(ParseError::MalformedCommand(String::new()));
    }
    let word = tokens[from].as_str().to_lowercase();
    let params = tokens_from(tokens, from + 1);
    assert(rest(tokens.deep_view(), from as int).skip(1) =~= rest(tokens.deep_view(), from + 1));
    parse_verb(word.as_str(), &params)
}

/// The verb that `word`, which is in lower case already, names.
pub fn which_verb(word: &str) -> (verb: Option<Verb>)
    ensures
        verb == verb_named(word@),
{
    if same_text(word, "join") {
        Some(Verb::Join)
    } else if same_text(word, "nick") {
        Some(Verb::Nick)
    } else if same_text(word, "user") {
        Some(Verb::User)
    } else if same_text(word, "ping") {
        Some(Verb::Ping)
    } else if same_text(word, "privmsg") {
        Some(Verb::PrivMsg)
    } else if same_text(word, "quit") {
        Some(Verb::Quit)
    } else {
        None
    }
}

/// Reads the parameters of the verb `word`, which is in lower case already.
pub fn parse_verb(word: &str, params: &Vec<String>) -> (r: Result<CommandKind, ParseError>)
    ensures
        view_of(r) == verb_of(word@, params.deep_view()),
{
    assert(rest(params.deep_view(), 0) =~= params.deep_view());
    match which_verb(word) {
        Some(Verb::Join) => parse_join(params),
        Some(Verb::Nick) => parse_nick(params),
        Some(Verb::User) => parse_user(join_str_iter(params, 0).as_str()),
        Some(Verb::Ping) => parse_ping(join_str_iter(params, 0).as_str()),
        Some(Verb::PrivMsg) => parse_privmsg(join_str_iter(params, 0).as_str()),
        Some(Verb::Quit) => parse_quit(join_str_iter(params, 0).as_str()),
        None => {
            let mut text = word.to_owned();
            text.append(" ");
            text.append(join_str_iter(params, 0).as_str());
            Err(ParseError::UnrecognisedCommand(text))
        },
    }
}

/// Reads a list of channel names separated by commas.
pub fn parse_channels(list: &str) -> (r: Result<Vec<String>, ParseError>)
    ensures
        names_view(r) == channels_of(list@),
{
    let names = split_on(list, ',');
    let mut fits: Vec<bool> = Vec::new();
    let mut i: usize = 0;
    while i < names.len()
        invariant
            i <= names.len(),
            fits@ == fits_each(CHANNEL@, names.deep_view().take(i as int)),
        decreases names.len() - i,
    {
        let fit = parse_channel(names[i].as_str()).is_ok();
        fits.push(fit);
        assert(fits@ =~= fits_each(CHANNEL@, names.deep_view().take(i + 1)));
        i = i + 1;
    }
    assert(names.deep_view().take(names.len() as int) =~= names.deep_view());
    channels_from(names, &fits)
}

/// The view of what reading a list of names gave.
pub open spec fn names_view(r: Result<Vec<String>, ParseError>) -> Result<
    Seq<Seq<char>>,
    ParseErrorView,
> {
    match r {
        Ok(names) => Ok(names.deep_view()),
        Err(e) => Err(e@),
    }
}

/// The names, given of each whether it is a channel name: all of them, or
/// the first that is none.
pub fn channels_from(names: Vec<String>, fits: &Vec<bool>) -> (r: Result<Vec<String>, ParseError>)
    ensures
        names_view(r) == channels_given(names.deep_view(), fits@),
{
    let mut i: usize = 0;
    while i < fits.len()
        invariant
            i <= fits.len(),
            first_refused(fits@, 0) == first_refused(fits@, i as int),
        decreases fits.len() - i,
    {
        if !fits[i] {
            if i < names.len() {
                return Err(ParseError::MalformedCommand(names[i].clone()));
            } else {
                return Ok(names);
            }
        }
        i = i + 1;
    }
    Ok(names)
}

/// Reads the parameters of a `JOIN`: `0` alone, or a list of channels and,
/// where there is one, a list of keys.
pub fn parse_join(params: &Vec<String>) -> (r: Result<CommandKind, ParseError>)
    ensures
        view_of(r) == join_of(params.deep_view()),
{
    let listed = if params.len() > 0 {
        parse_channels(params[0].as_str())
    } else {
        let none: Vec<String> = Vec::new();
        assert(none.deep_view() =~= Seq::<Seq<char>>::empty());
        Ok(none)
    };
    join_from(params, listed)
}

/// What the parameters of a `JOIN` mean, given what reading the first as a
/// list of channels gave.
pub fn join_from(params: &Vec<String>, listed: Result<Vec<String>, ParseError>) -> (r: Result<
    CommandKind,
    ParseError,
>)
    ensures
        view_of(r) == join_given(params.deep_view(), names_view(listed)),
{
    if params.len() == 0 {
        return Err(ParseError::MalformedCommand(String::new()));
    }
    if same_text(params[0].as_str(), "0") {
        if params.len() > 1 {
            return Err(ParseError::MalformedCommand(join_str_iter(params, 2)));
        }
        let mut channels: Vec<String> = Vec::new();
        channels.push("0".to_owned());
        assert(channels.deep_view() =~= seq!["0"@]);
        return Ok(CommandKind::Join { channels, keys: None });
    }
    let channels = match listed {
        Ok(channels) => channels,
        Err(e) => {
            return Err(e);
        },
    };
    if params.len() > 2 {
        return Err(ParseError::MalformedCommand(join_str_iter(params, 3)));
    }
    let keys = if params.len() == 2 {
        Some(split_on(params[1].as_str(), ','))
    } else {
        None
    };
    Ok(CommandKind::Join { channels, keys })
}

/// Reads the parameters of a `NICK`: one nickname.
pub fn parse_nick(params: &Vec<String>) -> (r: Result<CommandKind, ParseError>)
    ensures
        view_of(r) == nick_of(params.deep_view()),
{
    let fits = params.len() > 0 && parse_nickname(params[0].as_str()).is_ok();
    nick_from(params, fits)
}

/// What the parameters of a `NICK` mean, given whether the first is a
/// nickname.
pub fn nick_from(params: &Vec<String>, fits: bool) -> (r: Result<CommandKind, ParseError>)
    ensures
        view_of(r) == nick_given(params.deep_view(), fits),
{
    if params.len() == 0 {
        return Err(ParseError::MalformedCommand(String::new()));
    }
    if !fits {
        return Err(ParseError::MalformedCommand(params[0].clone()));
    }
    if params.len() > 1 {
        return Err(ParseError::MalformedCommand(join_str_iter(params, 2)));
    }
    Ok(CommandKind::Nick { nickname: params[0].clone() })
}

/// The number that the digit `c` stands for.
fn digit_of(c: char) -> (d: u8)
    requires
        is_digit(c),
    ensures
        d == digit_value(c),
{
    c as u8 - 48u8
}

/// Reads the text after `USER`.
pub fn parse_user(line: &str) -> (r: Result<CommandKind, ParseError>)
    ensures
        view_of(r) == user_of(line@),
{
    let tokens = split_on(line, ' ');
    proof {
        crate::text::lemma_split_nonempty(line@, ' ');
    }
    let fits = regex_match(tokens[0].as_str(), USERNAME).is_ok();
    user_from(line, fits)
}

/// What the text after `USER` means, given whether its first token is a
/// user name.
pub fn user_from(line: &str, fits: bool) -> (r: Result<CommandKind, ParseError>)
    ensures
        view_of(r) == user_given(line@, fits),
{
    let tokens = split_on(line, ' ');
    if tokens.len() < 4 || !fits {
        return Err(ParseError::MalformedCommand(line.to_owned()));
    }
    let mode_token = tokens[1].as_str();
    if mode_token.unicode_len() != 1 {
        return Err(ParseError::MalformedCommand(line.to_owned()));
    }
    let digit = mode_token.get_char(0);
    if !(digit >= '0' && digit <= '9') {
        return Err(ParseError::MalformedCommand(line.to_owned()));
    }
    if !same_text(tokens[2].as_str(), "*") {
        return Err(ParseError::MalformedCommand(line.to_owned()));
    }
    let lead = tokens[3].as_str();
    if lead.unicode_len() == 0 || lead.get_char(0) != ':' {
        return Err(ParseError::MalformedCommand(line.to_owned()));
    }
    let tail = join_with_spaces(&tokens, 3);
    let len: usize = tail.as_str().unicode_len();
    if len <= 1 {
        return Err(ParseError::MalformedCommand(line.to_owned()));
    }
    let full_name = tail.as_str().substring_char(1, len).to_owned();
    Ok(CommandKind::User { username: tokens[0].clone(), mode: digit_of(digit), full_name })
}

/// Reads the text after `PING`.
pub fn parse_ping(line: &str) -> (r: Result<CommandKind, ParseError>)
    ensures
        view_of(r) == ping_of(line@),
{
    let tokens = split_on(line, ' ');
    proof {
        crate::text::lemma_split_nonempty(line@, ' ');
    }
    let source_fits = parse_host(tokens[0].as_str()).is_ok();
    let target_fits = tokens.len() > 1 && parse_host(tokens[1].as_str()).is_ok();
    ping_from(line, source_fits, target_fits)
}

/// What the text after `PING` means, given of its first two tokens whether
/// they are hosts.
pub fn ping_from(line: &str, source_fits: bool, target_fits: bool) -> (r: Result<
    CommandKind,
    ParseError,
>)
    ensures
        view_of(r) == ping_given(line@, source_fits, target_fits),
{
    let tokens = split_on(line, ' ');
    proof {
        crate::text::lemma_split_nonempty(line@, ' ');
    }
    if !source_fits {
        return Err(ParseError::MalformedCommand(tokens[0].clone()));
    }
    if tokens.len() == 1 {
        return Ok(CommandKind::Ping { source_server: tokens[0].clone(), target_server: None });
    }
    if !target_fits {
        return Err(ParseError::MalformedCommand(tokens[1].clone()));
    }
    if tokens.len() > 2 {
        return Err(ParseError::MalformedCommand(join_str_iter(&tokens, 3)));
    }
    Ok(
        CommandKind::Ping {
            source_server: tokens[0].clone(),
            target_server: Some(tokens[1].clone()),
        },
    )
}

/// Reads the text after `PRIVMSG`.
pub fn parse_privmsg(line: &str) -> (r: Result<CommandKind, ParseError>)
    ensures
        view_of(r) == privmsg_of(line@),
{
    let tokens = split_on(line, ' ');
    proof {
        crate::text::lemma_split_nonempty(line@, ' ');
    }
    let target = tokens[0].as_str();
    let fits = parse_nickname(target).is_ok() || parse_channel(target).is_ok();
    privmsg_from(line, fits)
}

/// What the text after `PRIVMSG` means, given whether its first token is a
/// nickname or a channel.
pub fn privmsg_from(line: &str, fits: bool) -> (r: Result<CommandKind, ParseError>)
    ensures
        view_of(r) == privmsg_given(line@, fits),
{
    let tokens = split_on(line, ' ');
    proof {
        crate::text::lemma_split_nonempty(line@, ' ');
    }
    if !fits {
        return Err(ParseError::MalformedCommand(tokens[0].clone()));
    }
    let body = join_with_spaces(&tokens, 1);
    Ok(
        CommandKind::PrivMsg {
            message_target: tokens[0].clone(),
            message_text: strip_leading(body.as_str(), ':'),
        },
    )
}

/// Reads the text after `QUIT`.
pub fn parse_quit(line: &str) -> (r: Result<CommandKind, ParseError>)
    ensures
        view_of(r) == quit_of(line@),
{
    if line.unicode_len() == 0 {
        Ok(CommandKind::Quit { quit_message: None })
    } else {
        Ok(CommandKind::Quit { quit_message: Some(strip_leading(line, ':')) })
    }
}

} // verus!
