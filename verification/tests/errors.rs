use irc::IrcError;

fn s(text: &str) -> String {
    text.to_string()
}

#[test]
fn every_failure_has_its_code() {
    assert_eq!(IrcError::NoSuchNick { nickname: s("n") }.numeric_code(), 401);
    assert_eq!(IrcError::NoSuchServer { server: s("s") }.numeric_code(), 402);
    assert_eq!(IrcError::NoSuchChannel { channel: s("c") }.numeric_code(), 403);
    assert_eq!(IrcError::CannotSendToChan { channel: s("c") }.numeric_code(), 404);
    assert_eq!(IrcError::TooManyChannels { channel: s("c") }.numeric_code(), 405);
    assert_eq!(IrcError::WasNoSuchNick { nickname: s("n") }.numeric_code(), 406);
    assert_eq!(IrcError::TooManyTargets { target: s("t") }.numeric_code(), 407);
    assert_eq!(IrcError::NoOrigin.numeric_code(), 409);
    assert_eq!(IrcError::NoRecipient { command: s("c") }.numeric_code(), 411);
    assert_eq!(IrcError::NoTextToSend.numeric_code(), 412);
    assert_eq!(IrcError::NoTopLevel { mask: s("m") }.numeric_code(), 413);
    assert_eq!(IrcError::WildTopLevel { mask: s("m") }.numeric_code(), 414);
    assert_eq!(IrcError::UnknownCommand { command: s("c") }.numeric_code(), 421);
    assert_eq!(IrcError::NoMotd.numeric_code(), 422);
    assert_eq!(IrcError::NoAdminInfo { server: s("s") }.numeric_code(), 423);
    assert_eq!(IrcError::FileError { file_op: s("f"), file: s("f") }.numeric_code(), 424);
    assert_eq!(IrcError::NoNickNameGiven.numeric_code(), 431);
    assert_eq!(IrcError::ErroneusNickname { nickname: s("n") }.numeric_code(), 432);
    assert_eq!(IrcError::NicknameInUse { nickname: s("n") }.numeric_code(), 433);
    assert_eq!(IrcError::NickCollision { nickname: s("n") }.numeric_code(), 436);
    assert_eq!(IrcError::UserNotInChannel { nickname: s("n"), channel: s("c") }.numeric_code(), 441);
    assert_eq!(IrcError::NotOnChannel { channel: s("c") }.numeric_code(), 442);
    assert_eq!(IrcError::UserOnChannel { user: s("u"), channel: s("c") }.numeric_code(), 443);
    assert_eq!(IrcError::NoLogin { user: s("u") }.numeric_code(), 444);
    assert_eq!(IrcError::SummonDisabled.numeric_code(), 445);
    assert_eq!(IrcError::UsersDisabled.numeric_code(), 446);
    assert_eq!(IrcError::NotRegistered.numeric_code(), 451);
    assert_eq!(IrcError::NeedMoreParams { command: s("c") }.numeric_code(), 461);
    assert_eq!(IrcError::AlreadyRegistered.numeric_code(), 462);
    assert_eq!(IrcError::NoPermForHost.numeric_code(), 463);
    assert_eq!(IrcError::PasswdMismatch.numeric_code(), 464);
    assert_eq!(IrcError::YoureBannedCreep.numeric_code(), 465);
    assert_eq!(IrcError::KeySet { channel: s("c") }.numeric_code(), 467);
    assert_eq!(IrcError::ChannelIsFull { channel: s("c") }.numeric_code(), 471);
    assert_eq!(IrcError::UnknownMode { char: 'x' }.numeric_code(), 472);
    assert_eq!(IrcError::InviteOnlyChan { channel: s("c") }.numeric_code(), 473);
    assert_eq!(IrcError::BannedFromChan { channel: s("c") }.numeric_code(), 474);
    assert_eq!(IrcError::BadChannelKey { channel: s("c") }.numeric_code(), 475);
    assert_eq!(IrcError::NoPrivileges.numeric_code(), 481);
    assert_eq!(IrcError::ChanOPrivsNeeded { channel: s("c") }.numeric_code(), 482);
    assert_eq!(IrcError::CantKillServer.numeric_code(), 483);
    assert_eq!(IrcError::NoOperHost.numeric_code(), 491);
    assert_eq!(IrcError::UModeUnkownFlag.numeric_code(), 501);
    assert_eq!(IrcError::UsersDontMatch.numeric_code(), 502);
}

#[test]
fn no_two_failures_share_a_code() {
    let codes = [
        IrcError::NoSuchNick { nickname: s("n") }.numeric_code(),
        IrcError::NoSuchServer { server: s("s") }.numeric_code(),
        IrcError::NoSuchChannel { channel: s("c") }.numeric_code(),
        IrcError::CannotSendToChan { channel: s("c") }.numeric_code(),
        IrcError::TooManyChannels { channel: s("c") }.numeric_code(),
        IrcError::WasNoSuchNick { nickname: s("n") }.numeric_code(),
        IrcError::TooManyTargets { target: s("t") }.numeric_code(),
        IrcError::NoOrigin.numeric_code(),
        IrcError::NoRecipient { command: s("c") }.numeric_code(),
        IrcError::NoTextToSend.numeric_code(),
        IrcError::NoTopLevel { mask: s("m") }.numeric_code(),
        IrcError::WildTopLevel { mask: s("m") }.numeric_code(),
        IrcError::UnknownCommand { command: s("c") }.numeric_code(),
        IrcError::NoMotd.numeric_code(),
        IrcError::NoAdminInfo { server: s("s") }.numeric_code(),
        IrcError::FileError { file_op: s("f"), file: s("f") }.numeric_code(),
        IrcError::NoNickNameGiven.numeric_code(),
        IrcError::ErroneusNickname { nickname: s("n") }.numeric_code(),
        IrcError::NicknameInUse { nickname: s("n") }.numeric_code(),
        IrcError::NickCollision { nickname: s("n") }.numeric_code(),
        IrcError::UserNotInChannel { nickname: s("n"), channel: s("c") }.numeric_code(),
        IrcError::NotOnChannel { channel: s("c") }.numeric_code(),
        IrcError::UserOnChannel { user: s("u"), channel: s("c") }.numeric_code(),
        IrcError::NoLogin { user: s("u") }.numeric_code(),
        IrcError::SummonDisabled.numeric_code(),
        IrcError::UsersDisabled.numeric_code(),
        IrcError::NotRegistered.numeric_code(),
        IrcError::NeedMoreParams { command: s("c") }.numeric_code(),
        IrcError::AlreadyRegistered.numeric_code(),
        IrcError::NoPermForHost.numeric_code(),
        IrcError::PasswdMismatch.numeric_code(),
        IrcError::YoureBannedCreep.numeric_code(),
        IrcError::KeySet { channel: s("c") }.numeric_code(),
        IrcError::ChannelIsFull { channel: s("c") }.numeric_code(),
        IrcError::UnknownMode { char: 'x' }.numeric_code(),
        IrcError::InviteOnlyChan { channel: s("c") }.numeric_code(),
        IrcError::BannedFromChan { channel: s("c") }.numeric_code(),
        IrcError::BadChannelKey { channel: s("c") }.numeric_code(),
        IrcError::NoPrivileges.numeric_code(),
        IrcError::ChanOPrivsNeeded { channel: s("c") }.numeric_code(),
        IrcError::CantKillServer.numeric_code(),
        IrcError::NoOperHost.numeric_code(),
        IrcError::UModeUnkownFlag.numeric_code(),
        IrcError::UsersDontMatch.numeric_code(),
    ];
    assert_eq!(codes.len(), 44);
    for (i, a) in codes.iter().enumerate() {
        for b in codes.iter().skip(i + 1) {
            assert_ne!(a, b);
        }
    }
}

#[test]
fn every_code_is_a_reply_code_of_the_protocol() {
    let codes = [
        IrcError::NoSuchNick { nickname: s("n") }.numeric_code(),
        IrcError::NoSuchServer { server: s("s") }.numeric_code(),
        IrcError::NoSuchChannel { channel: s("c") }.numeric_code(),
        IrcError::CannotSendToChan { channel: s("c") }.numeric_code(),
        IrcError::TooManyChannels { channel: s("c") }.numeric_code(),
        IrcError::WasNoSuchNick { nickname: s("n") }.numeric_code(),
        IrcError::TooManyTargets { target: s("t") }.numeric_code(),
        IrcError::NoOrigin.numeric_code(),
        IrcError::NoRecipient { command: s("c") }.numeric_code(),
        IrcError::NoTextToSend.numeric_code(),
        IrcError::NoTopLevel { mask: s("m") }.numeric_code(),
        IrcError::WildTopLevel { mask: s("m") }.numeric_code(),
        IrcError::UnknownCommand { command: s("c") }.numeric_code(),
        IrcError::NoMotd.numeric_code(),
        IrcError::NoAdminInfo { server: s("s") }.numeric_code(),
        IrcError::FileError { file_op: s("f"), file: s("f") }.numeric_code(),
        IrcError::NoNickNameGiven.numeric_code(),
        IrcError::ErroneusNickname { nickname: s("n") }.numeric_code(),
        IrcError::NicknameInUse { nickname: s("n") }.numeric_code(),
        IrcError::NickCollision { nickname: s("n") }.numeric_code(),
        IrcError::UserNotInChannel { nickname: s("n"), channel: s("c") }.numeric_code(),
        IrcError::NotOnChannel { channel: s("c") }.numeric_code(),
        IrcError::UserOnChannel { user: s("u"), channel: s("c") }.numeric_code(),
        IrcError::NoLogin { user: s("u") }.numeric_code(),
        IrcError::SummonDisabled.numeric_code(),
        IrcError::UsersDisabled.numeric_code(),
        IrcError::NotRegistered.numeric_code(),
        IrcError::NeedMoreParams { command: s("c") }.numeric_code(),
        IrcError::AlreadyRegistered.numeric_code(),
        IrcError::NoPermForHost.numeric_code(),
        IrcError::PasswdMismatch.numeric_code(),
        IrcError::YoureBannedCreep.numeric_code(),
        IrcError::KeySet { channel: s("c") }.numeric_code(),
        IrcError::ChannelIsFull { channel: s("c") }.numeric_code(),
        IrcError::UnknownMode { char: 'x' }.numeric_code(),
        IrcError::InviteOnlyChan { channel: s("c") }.numeric_code(),
        IrcError::BannedFromChan { channel: s("c") }.numeric_code(),
        IrcError::BadChannelKey { channel: s("c") }.numeric_code(),
        IrcError::NoPrivileges.numeric_code(),
        IrcError::ChanOPrivsNeeded { channel: s("c") }.numeric_code(),
        IrcError::CantKillServer.numeric_code(),
        IrcError::NoOperHost.numeric_code(),
        IrcError::UModeUnkownFlag.numeric_code(),
        IrcError::UsersDontMatch.numeric_code(),
    ];
    for code in codes {
        assert!((401..=502).contains(&code));
    }
}

#[test]
fn every_failure_has_its_text() {
    assert_eq!(IrcError::NoSuchNick { nickname: s("n") }.message(), "\"n\" :No such nick/channel");
    assert_eq!(IrcError::NoSuchServer { server: s("s") }.message(), "\"s\" :No such server");
    assert_eq!(IrcError::NoSuchChannel { channel: s("c") }.message(), "\"c\" :No such channel");
    assert_eq!(IrcError::CannotSendToChan { channel: s("c") }.message(), "\"c\" :Cannot send to channel");
    assert_eq!(IrcError::TooManyChannels { channel: s("c") }.message(), "\"c\" :You have joined too many channels");
    assert_eq!(IrcError::WasNoSuchNick { nickname: s("n") }.message(), "\"n\" :There was no such nickname");
    assert_eq!(IrcError::TooManyTargets { target: s("t") }.message(), "\"t\" :Duplicate recipients. No message delivered");
    assert_eq!(IrcError::NoOrigin.message(), ":No origin specified");
    assert_eq!(IrcError::NoRecipient { command: s("c") }.message(), ":No recipient given (?:command)");
    assert_eq!(IrcError::NoTextToSend.message(), "No text to send");
    assert_eq!(IrcError::NoTopLevel { mask: s("m") }.message(), "\"m\" :No toplevel domain specified");
    assert_eq!(IrcError::WildTopLevel { mask: s("m") }.message(), "\"m\" :Wildcard in toplevel domain");
    assert_eq!(IrcError::UnknownCommand { command: s("c") }.message(), "\"c\" :Unknown command");
    assert_eq!(IrcError::NoMotd.message(), ":MOTD File is missing");
    assert_eq!(IrcError::NoAdminInfo { server: s("s") }.message(), "\"s\" :No administrative info available");
    assert_eq!(IrcError::FileError { file_op: s("f"), file: s("f") }.message(), ":File error doing (?:file_op) on (?:file)");
    assert_eq!(IrcError::NoNickNameGiven.message(), ":No nickname given");
    assert_eq!(IrcError::ErroneusNickname { nickname: s("n") }.message(), "\"n\" :Erroneus nickname");
    assert_eq!(IrcError::NicknameInUse { nickname: s("n") }.message(), "\"n\" :Nickname is already in use");
    assert_eq!(IrcError::NickCollision { nickname: s("n") }.message(), "\"n\" :Nickname collision KILL");
    assert_eq!(IrcError::UserNotInChannel { nickname: s("n"), channel: s("c") }.message(), "\"n\" c :They aren't on that channel");
    assert_eq!(IrcError::NotOnChannel { channel: s("c") }.message(), "\"c\" :You're not on that channel");
    assert_eq!(IrcError::UserOnChannel { user: s("u"), channel: s("c") }.message(), "\"u\" \"c\" :is already on channel");
    assert_eq!(IrcError::NoLogin { user: s("u") }.message(), "\"u\" :User not logged in");
    assert_eq!(IrcError::SummonDisabled.message(), ":SUMMON has been disabled");
    assert_eq!(IrcError::UsersDisabled.message(), ":USERS has been disabled");
    assert_eq!(IrcError::NotRegistered.message(), ":You have not registered");
    assert_eq!(IrcError::NeedMoreParams { command: s("c") }.message(), "\"c\" :Not enough parameters");
    assert_eq!(IrcError::AlreadyRegistered.message(), ":You may not reregister");
    assert_eq!(IrcError::NoPermForHost.message(), ":Your host isn't among the privileged");
    assert_eq!(IrcError::PasswdMismatch.message(), ":Password incorrect");
    assert_eq!(IrcError::YoureBannedCreep.message(), ":You are banned from this server");
    assert_eq!(IrcError::KeySet { channel: s("c") }.message(), "\"c\" :Channel key already set");
    assert_eq!(IrcError::ChannelIsFull { channel: s("c") }.message(), "\"c\" :Channot join channel (+l)");
    assert_eq!(IrcError::UnknownMode { char: 'x' }.message(), "'x' :is unknown mode char to me");
    assert_eq!(IrcError::InviteOnlyChan { channel: s("c") }.message(), "\"c\" :Cannot join channel (+i)");
    assert_eq!(IrcError::BannedFromChan { channel: s("c") }.message(), "\"c\" :Cannot join channel (+b)");
    assert_eq!(IrcError::BadChannelKey { channel: s("c") }.message(), "\"c\" :Channot join channel (+k)");
    assert_eq!(IrcError::NoPrivileges.message(), ":Permission Denied - You're not an IRC operator");
    assert_eq!(IrcError::ChanOPrivsNeeded { channel: s("c") }.message(), "\"c\" :You're not channel operator");
    assert_eq!(IrcError::CantKillServer.message(), ":You cant kill a server!");
    assert_eq!(IrcError::NoOperHost.message(), ":No O-lines for your host");
    assert_eq!(IrcError::UModeUnkownFlag.message(), ":Unknown MODE flag");
    assert_eq!(IrcError::UsersDontMatch.message(), ":Cant change mode for other users");
}

#[test]
fn text_quotes_as_debug_does() {
    assert_eq!(
        IrcError::NoSuchNick { nickname: s("a\"b\\c\n") }.message(),
        "\"a\\\"b\\\\c\\n\" :No such nick/channel"
    );
    assert_eq!(
        IrcError::UnknownMode { char: '\'' }.message(),
        "'\\'' :is unknown mode char to me"
    );
    assert_eq!(
        IrcError::UserNotInChannel { nickname: s("Wiz"), channel: s("#a b") }.message(),
        "\"Wiz\" #a b :They aren't on that channel"
    );
}

#[test]
fn reply_is_code_space_text() {
    assert_eq!(
        IrcError::NicknameInUse { nickname: s("bob") }.reply(),
        "433 \"bob\" :Nickname is already in use"
    );
    assert_eq!(IrcError::NotRegistered.reply(), "451 :You have not registered");
    assert_eq!(IrcError::NoTextToSend.reply(), "412 No text to send");
    assert_eq!(IrcError::UsersDontMatch.reply(), "502 :Cant change mode for other users");
}

#[test]
fn text_is_the_template_around_what_it_is_given() {
    assert_eq!(
        IrcError::NoSuchNick { nickname: s("bob") }.message_with("<bob>", "unused"),
        "<bob> :No such nick/channel"
    );
    assert_eq!(
        IrcError::UserOnChannel { user: s("u"), channel: s("c") }.message_with("U", "C"),
        "U C :is already on channel"
    );
    assert_eq!(IrcError::NoOrigin.message_with("a", "b"), ":No origin specified");
}
