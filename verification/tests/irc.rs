use matrirc::ircd::chan::{join_irc_chan, join_irc_chan_finish};
use matrirc::ircd::client::IrcClient;
use matrirc::ircd::proto::{
    after_action, error, forward_failure, ircd_sync_read, ircd_sync_write, join, nick_has_user,
    notice, part, pong, privmsg, raw_msg, read_input, Command, IrcMessage, IrcMessageType, Message,
    Mode, Prefix, ReadAction, Reading, Writing,
};
use matrirc::ircd::session::{auth_failed, ready, SessionEnd};
use matrirc::matrix::room_mappings::MatrixMessageType;

fn show(m: &Message) -> String {
    let from = match &m.prefix {
        Some(Prefix::Nickname(n, u, h)) => format!("{}!{}@{} ", n, u, h),
        Some(Prefix::ServerName(s)) => format!("{} ", s),
        None => String::new(),
    };
    let what = match &m.command {
        Command::PRIVMSG(t, x) => format!("PRIVMSG {} :{}", t, x),
        Command::NOTICE(t, x) => format!("NOTICE {} :{}", t, x),
        Command::JOIN(c) => format!("JOIN {}", c),
        Command::PART(c) => format!("PART {}", c),
        Command::PONG(a, b) => format!("PONG {} {:?}", a, b),
        Command::ERROR(e) => format!("ERROR :{}", e),
        Command::Raw(l) => l.clone(),
        other => format!("{:?}", other),
    };
    format!("{}{}", from, what)
}

fn from(prefix: Option<Prefix>, command: Command) -> Message {
    Message { prefix, command }
}

fn from_nick(nick: &str, command: Command) -> Message {
    let prefix = Prefix::Nickname(nick.to_string(), "u".to_string(), "h".to_string());
    from(Some(prefix), command)
}

#[test]
fn messages_as_they_go_out() {
    assert_eq!(show(&raw_msg(":matrirc 001 x")), ":matrirc 001 x");
    assert_eq!(show(&join(None, "#c")), "JOIN #c");
    assert_eq!(show(&join(Some("bobbyjoe"), "#c")), "bobbyjoe!bobbyj@matrirc JOIN #c");
    assert_eq!(show(&part(Some("bob"), "#c")), "bob!bob@matrirc PART #c");
    assert_eq!(show(&part(None, "#c")), "PART #c");
    assert_eq!(show(&pong("a".to_string(), Some("b".to_string()))), "PONG a Some(\"b\")");
    assert_eq!(show(&privmsg("bob", "me", "hi")), "bob!bob@matrirc PRIVMSG me :hi");
    assert_eq!(show(&notice("bob", "me", "hi")), "bob!bob@matrirc NOTICE me :hi");
    assert_eq!(show(&error("over")), "ERROR :over");
}

#[test]
fn users_are_cut_at_six_bytes() {
    assert!(nick_has_user("abcdefgh"));
    assert!(nick_has_user(""));
    assert!(nick_has_user("ééé"));
    assert!(!nick_has_user("abcdeéf"));
    assert_eq!(show(&privmsg("éééé", "me", "hi")), "éééé!ééé@matrirc PRIVMSG me :hi");
}

#[test]
fn texts_are_sent_line_by_line() {
    let text = IrcMessage {
        message_type: IrcMessageType::Privmsg,
        from: "bob".to_string(),
        target: "#c".to_string(),
        text: "one\n\nthree".to_string(),
    };
    let lines: Vec<String> = text.clone().into_iter().iter().map(show).collect();
    assert_eq!(
        lines,
        vec![
            "bob!bob@matrirc PRIVMSG #c :one",
            "bob!bob@matrirc PRIVMSG #c :",
            "bob!bob@matrirc PRIVMSG #c :three",
        ]
    );
    let text = IrcMessage { message_type: IrcMessageType::Notice, ..text };
    assert_eq!(show(&text.into_iter()[0]), "bob!bob@matrirc NOTICE #c :one");
}

#[test]
fn clients_are_sent_private_messages() {
    let irc = IrcClient::new("nick".to_string(), "user".to_string());
    let m = irc.send_privmsg("matrirc", &irc.nick, "okay");
    assert_eq!(show(&m), "matrirc!matrir@matrirc PRIVMSG nick :okay");
    assert_eq!(irc.user, "user");
}

#[test]
fn joining_tells_who_is_there() {
    let members = vec!["alice".to_string(), "bob".to_string()];
    let lines: Vec<String> = join_irc_chan("nick", "#c", &members).iter().map(show).collect();
    assert_eq!(
        lines,
        vec!["JOIN #c", ":matrirc 353 nick = #c :alice bob ", ":matrirc 366 nick #c :End"]
    );
    let lines: Vec<String> = join_irc_chan_finish("nick", "#c", &vec![]).iter().map(show).collect();
    assert_eq!(lines, vec![":matrirc 366 nick #c :End"]);
}

#[test]
fn long_lists_of_names_are_broken() {
    let members: Vec<String> = (0..100).map(|i| format!("member_number_{}", i)).collect();
    let lines: Vec<String> = join_irc_chan_finish("nick", "#c", &members).iter().map(show).collect();
    let header = ":matrirc 353 nick = #c :";
    let mut told: Vec<String> = Vec::new();
    for line in &lines[..lines.len() - 1] {
        assert!(line.starts_with(header));
        assert!(line.len() <= 420);
        told.extend(line[header.len()..].split_whitespace().map(|s| s.to_string()));
    }
    assert_eq!(told, members);
    assert!(lines.len() > 3);
    assert_eq!(lines[lines.len() - 1], ":matrirc 366 nick #c :End");
    // a name that fills a line leaves nothing for a line of its own
    let long = "x".repeat(400);
    let lines: Vec<String> = join_irc_chan_finish("nick", "#c", &vec![long.clone()]).iter().map(show).collect();
    assert_eq!(lines, vec![format!("{}{}", header, long), ":matrirc 366 nick #c :End".to_string()]);
}

#[test]
fn errors_close_the_connection() {
    assert!(matches!(ircd_sync_write(&error("x"), None), Writing::Close));
    assert!(matches!(ircd_sync_write(&raw_msg("x"), None), Writing::GoesOn));
}

#[test]
fn what_cannot_be_sent_ends_the_writing() {
    let failure = || Some("broken pipe".to_string());
    assert!(matches!(ircd_sync_write(&raw_msg("x"), failure()), Writing::Failed(e) if e == "broken pipe"));
    assert!(matches!(ircd_sync_write(&error("x"), failure()), Writing::Failed(e) if e == "broken pipe"));
}

#[test]
fn nothing_is_sent_behind_an_error() {
    let queue = vec![raw_msg("one"), pong("a".to_string(), None), error("bye"), raw_msg("late")];
    let mut sent = Vec::new();
    let mut closed = false;
    for message in &queue {
        sent.push(show(message));
        match ircd_sync_write(message, None) {
            Writing::GoesOn => (),
            Writing::Close => {
                closed = true;
                break;
            }
            Writing::Failed(e) => panic!("{}", e),
        }
    }
    assert!(closed);
    assert_eq!(sent.len(), 3);
    assert_eq!(sent[..2], ["one".to_string(), "PONG a None".to_string()]);
}

#[test]
fn messages_can_be_copied() {
    let sample = vec![
        from_nick("bob", Command::PRIVMSG("a".to_string(), "b".to_string())),
        from(None, Command::NOTICE("a".to_string(), "b".to_string())),
        from(None, Command::ChannelMODE("#c".to_string(), vec![Mode::Ban, Mode::Other])),
        from(None, Command::PING("a".to_string(), Some("b".to_string()))),
        from(None, Command::PONG("a".to_string(), None)),
        from(None, Command::QUIT(Some("bye".to_string()))),
        from(None, Command::CAP(Some("302".to_string()))),
        from(None, Command::WHO(None)),
        from(None, Command::NICK("n".to_string())),
        from(None, Command::PASS("p".to_string())),
        from(None, Command::USER("u".to_string())),
        from(None, Command::JOIN("#c".to_string())),
        from(None, Command::PART("#c".to_string())),
        from(None, Command::ERROR("e".to_string())),
        from(None, Command::Raw("r".to_string())),
        from(None, Command::Other),
        Message { prefix: Some(Prefix::ServerName("s".to_string())), command: Command::Other },
    ];
    for m in &sample {
        assert_eq!(format!("{:?}", m.copy()), format!("{:?}", m));
    }
}

#[test]
fn pings_are_answered() {
    let m = from(None, Command::PING("a".to_string(), None));
    match ircd_sync_read("nick", &m, 0) {
        ReadAction::Answer(m) => assert_eq!(show(&m), "PONG a None"),
        other => panic!("{:?}", other),
    }
}

#[test]
fn texts_are_forwarded() {
    let said = |command| match ircd_sync_read("nick", &from(None, command), 0) {
        ReadAction::Forward { target, message_type, text } => (target, message_type, text),
        other => panic!("{:?}", other),
    };
    let (target, kind, text) = said(Command::PRIVMSG("#c".to_string(), "hi".to_string()));
    assert_eq!((target.as_str(), text.as_str()), ("#c", "hi"));
    assert!(kind == MatrixMessageType::Text);
    let emote = "\u{001}ACTION waves\u{001}".to_string();
    let (_, kind, text) = said(Command::PRIVMSG("#c".to_string(), emote));
    assert_eq!(text, "waves\u{001}");
    assert!(kind == MatrixMessageType::Emote);
    let (_, kind, text) = said(Command::NOTICE("bob".to_string(), "psst".to_string()));
    assert_eq!(text, "psst");
    assert!(kind == MatrixMessageType::Notice);
}

#[test]
fn modes_and_who_are_answered() {
    let reply = |command| match ircd_sync_read("nick", &from(None, command), 1234) {
        ReadAction::Reply(m) => Some(show(&m)),
        ReadAction::Ignore => None,
        other => panic!("{:?}", other),
    };
    let chan = || "#c".to_string();
    assert_eq!(reply(Command::ChannelMODE(chan(), vec![])), Some(":matrirc 329 nick #c 1234".to_string()));
    assert_eq!(
        reply(Command::ChannelMODE(chan(), vec![Mode::Other, Mode::Ban])),
        Some(":matrirc 368 nick #c :End".to_string())
    );
    assert_eq!(reply(Command::ChannelMODE(chan(), vec![Mode::Other])), None);
    assert_eq!(reply(Command::WHO(Some(chan()))), Some(":matrirc 315 nick #c :End".to_string()));
    assert_eq!(reply(Command::WHO(None)), None);
    assert_eq!(reply(Command::Other), None);
}

#[test]
fn quitting_ends_reading() {
    let m = from(None, Command::QUIT(Some("bye".to_string())));
    assert!(matches!(ircd_sync_read("nick", &m, 0), ReadAction::Quit));
}

#[test]
fn failures_to_forward_are_told() {
    let to_chan = from_nick("nick", Command::PRIVMSG("#c".to_string(), "hi".to_string()));
    let m = forward_failure("nick", &to_chan, "No such target c");
    assert_eq!(show(&m), "nick!nick@matrirc NOTICE #c :Could not forward: No such target c");
    let to_query = from_nick("other", Command::NOTICE("bob".to_string(), "hi".to_string()));
    assert_eq!(
        show(&forward_failure("nick", &to_query, "x")),
        "nick!nick@matrirc NOTICE other :Could not forward: x"
    );
    let from_nobody = from(None, Command::PRIVMSG("bob".to_string(), "hi".to_string()));
    assert_eq!(
        show(&forward_failure("nick", &from_nobody, "x")),
        "nick!nick@matrirc NOTICE matrirc :Could not forward: x"
    );
    let from_server = from(
        Some(Prefix::ServerName("s".to_string())),
        Command::PRIVMSG("&local".to_string(), "hi".to_string()),
    );
    assert_eq!(from_server.response_target(), Some("&local".to_string()));
}

#[test]
fn beginning_and_end_of_a_session() {
    assert_eq!(show(&auth_failed("unknown user x")), "ERROR :Closing session: unknown user x");
    assert_eq!(show(&ready("nick")), "matrirc!matrir@matrirc PRIVMSG nick :okay");
    assert_eq!(SessionEnd::Writer.reason(), "irc writer task stopped");
    assert_eq!(SessionEnd::Sync.reason(), "matrix sync task stopped");
    assert_eq!(SessionEnd::Reader.reason(), "Reached end of handle_client");
}

fn goes_on(action: &ReadAction, failure: Option<&str>) -> bool {
    matches!(after_action(action, failure.map(|f| f.to_string())), Reading::GoesOn)
}

#[test]
fn reading_ends_where_it_has_to() {
    let ping = || Ok(from(None, Command::PING("a".to_string(), Some("b".to_string()))));
    let text = Ok(from(None, Command::PRIVMSG("#c".to_string(), "hi".to_string())));
    let inputs = vec![
        ping(),
        Err("bad line".to_string()),
        text,
        ping(),
        Ok(from(None, Command::QUIT(None))),
        ping(),
    ];
    let mut pongs = Vec::new();
    let mut read = 0;
    for input in &inputs {
        let action = read_input("nick", input, 0);
        read += 1;
        if let ReadAction::Answer(m) = &action {
            pongs.push(show(m));
        }
        if !goes_on(&action, None) {
            break;
        }
    }
    assert_eq!(read, 5);
    assert_eq!(pongs, vec!["PONG a Some(\"b\")", "PONG a Some(\"b\")"]);
    let ignored = read_input("nick", &Err("bad line".to_string()), 0);
    assert!(matches!(ignored, ReadAction::Ignore));
    // only an answer that cannot be sent is an error
    let answer = read_input("nick", &ping(), 0);
    match after_action(&answer, Some("closed".to_string())) {
        Reading::Failed(e) => assert_eq!(e, "closed"),
        other => panic!("{:?}", other),
    }
    let forward = read_input("nick", &inputs[2], 0);
    assert!(goes_on(&forward, Some("no such target")));
    assert!(goes_on(&ignored, None));
    let quit = read_input("nick", &inputs[4], 0);
    assert!(matches!(after_action(&quit, None), Reading::Over));
}
