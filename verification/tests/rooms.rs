use matrirc::ircd::client::IrcClient;
use matrirc::ircd::proto::{Command, IrcMessageType, Message, Prefix};
use matrirc::matrirc::{Matrirc, Running};
use matrirc::matrix::outgoing::{OutgoingContent, OutgoingRoom};
use matrirc::matrix::room_mappings::{
    room_name, EventRoom, Mappings, MatrixMessageType, MessageHandler, RoomInfo, SyncRoom, TargetRef,
};
use matrirc::matrix::room_target::{Member, RoomTarget, RoomTargetType};
use matrirc::matrix::sync::{matrix_sync, LoopCtrl};
use std::collections::VecDeque;

fn show(m: &Message) -> String {
    let from = match &m.prefix {
        Some(Prefix::Nickname(n, _, _)) => format!("{} ", n),
        Some(Prefix::ServerName(s)) => format!("{} ", s),
        None => String::new(),
    };
    let what = match &m.command {
        Command::PRIVMSG(t, x) => format!("PRIVMSG {} :{}", t, x),
        Command::NOTICE(t, x) => format!("NOTICE {} :{}", t, x),
        Command::JOIN(c) => format!("JOIN {}", c),
        Command::PART(c) => format!("PART {}", c),
        Command::ERROR(e) => format!("ERROR :{}", e),
        Command::Raw(l) => l.clone(),
        other => format!("{:?}", other),
    };
    format!("{}{}", from, what)
}

fn shown(ms: &[Message]) -> Vec<String> {
    ms.iter().map(show).collect()
}

fn member(user_id: &str, name: &str) -> Member {
    Member { user_id: user_id.to_string(), name: name.to_string() }
}

fn info(id: &str, name: &str) -> RoomInfo {
    RoomInfo { id: id.to_string(), display_name: Some(name.to_string()), name: None }
}

fn three() -> Vec<Member> {
    vec![member("@a:x", "Alice"), member("@b:x", "Bob"), member("@c:x", "Carol")]
}

fn mappings() -> Mappings<u32> {
    Mappings::new(IrcClient::new("nick".to_string(), "user".to_string()))
}

fn at(id: &str, name: &str, members: Vec<Member>) -> EventRoom<u32> {
    EventRoom { joined: true, room: info(id, name), members: Ok(members), handler: 1 }
}

#[test]
fn rooms_are_called() {
    let mut room = info("!r:x", "Display");
    room.name = Some("Given".to_string());
    assert_eq!(room_name(&room), "Display");
    room.display_name = None;
    assert_eq!(room_name(&room), "Given");
    room.name = None;
    assert_eq!(room_name(&room), "!r:x");
}

#[test]
fn rooms_with_many_members_are_channels() {
    let mut target = RoomTarget::query("room");
    assert!(target.fill_room_members(&three(), "room").is_ok());
    assert!(target.target_type() == RoomTargetType::LeftChan);
    assert_eq!(target.names_list(), vec!["Alice", "Bob", "Carol"]);
}

#[test]
fn a_room_named_like_its_other_member_is_a_query() {
    let mut target = RoomTarget::query("Bob_2");
    let members = vec![member("@a:x", "Alice"), member("@b:x", "Bob")];
    assert!(target.fill_room_members(&members, "Bob").is_ok());
    assert!(target.target_type() == RoomTargetType::Query);
    // the member named like the room gets the room's own name
    assert_eq!(target.names_list(), vec!["Alice", "Bob_2"]);
    let sent = target.send_text_to_irc("nick", IrcMessageType::Privmsg, "@b:x", "hi");
    assert_eq!(shown(&sent.messages), vec!["Bob_2 PRIVMSG nick :hi"]);
    let sent = target.send_text_to_irc("nick", IrcMessageType::Privmsg, "@a:x", "ho");
    assert_eq!(shown(&sent.messages), vec!["Bob_2 PRIVMSG nick :<Alice> ho"]);
    let sent = target.send_text_to_irc("nick", IrcMessageType::Notice, "@new:x", "hm");
    assert_eq!(shown(&sent.messages), vec!["Bob_2 NOTICE nick :<@new:x> hm"]);
}

#[test]
fn a_small_room_with_another_name_is_a_channel() {
    let mut target = RoomTarget::query("plans");
    let members = vec![member("@a:x", "Alice"), member("@b:x", "Bob")];
    assert!(target.fill_room_members(&members, "plans").is_ok());
    assert!(target.target_type() == RoomTargetType::LeftChan);
    let mut empty = RoomTarget::query("plans");
    assert_eq!(empty.fill_room_members(&vec![], "plans").unwrap_err(), "Message in empty room plans?");
}

#[test]
fn texts_wait_until_the_channel_is_joined() {
    let mut target = RoomTarget::new(RoomTargetType::LeftChan, "room");
    assert!(target.fill_room_members(&three(), "room").is_ok());
    let first = target.send_text_to_irc("nick", IrcMessageType::Privmsg, "@a:x", "one");
    assert_eq!(shown(&first.messages), vec!["JOIN #room"]);
    assert!(first.joining);
    let second = target.send_text_to_irc("nick", IrcMessageType::Notice, "@b:x", "two\nthree");
    assert!(second.messages.is_empty());
    assert!(!second.joining);
    assert!(!first.flushes && !second.flushes);
    assert!(target.can_flush());
    let join = target.complete_join("nick");
    assert_eq!(join.names, 2);
    assert_eq!(
        shown(&join.messages),
        vec![
            ":matrirc 353 nick = #room :Alice Bob Carol ",
            ":matrirc 366 nick #room :End",
            "Alice PRIVMSG #room :one",
            "Bob NOTICE #room :two",
            "Bob NOTICE #room :three",
        ]
    );
    // nothing is out of the queue before it was sent
    assert!(target.target_type() == RoomTargetType::JoiningChan);
    assert_eq!(target.flush_pending_messages("nick").len(), 3);
    target.finish_join("nick", join.names, join.messages.len());
    assert!(target.target_type() == RoomTargetType::Chan);
    assert!(target.flush_pending_messages("nick").is_empty());
    let third = target.send_text_to_irc("nick", IrcMessageType::Privmsg, "@c:x", "four");
    assert_eq!(shown(&third.messages), vec!["Carol PRIVMSG #room :four"]);
}

#[test]
fn members_come_and_go() {
    let mut target = RoomTarget::new(RoomTargetType::Chan, "room");
    let came = target.member_join("@b:x", Some("Bob"));
    assert_eq!(shown(&came.messages), vec!["Bob JOIN #room"]);
    let came = target.member_join("@b:y", Some("B o b!"));
    assert_eq!(shown(&came.messages), vec!["Bob_2 JOIN #room"]);
    let came = target.member_join("@dan:x", None);
    assert_eq!(shown(&came.messages), vec!["danx JOIN #room"]);
    assert_eq!(target.member_part("@b:x").map(|m| show(&m)), Some("Bob PART #room".to_string()));
    assert!(target.member_part("@b:x").is_none());
    assert_eq!(target.names_list(), vec!["Bob_2", "danx"]);
    // the nick is free again
    let came = target.member_join("@z:x", Some("Bob"));
    assert_eq!(shown(&came.messages), vec!["Bob JOIN #room"]);
}

#[test]
fn a_member_who_joins_a_query_makes_it_a_channel() {
    let mut target = RoomTarget::query("Bob");
    let came = target.member_join("@c:x", Some("Carol"));
    assert!(came.joining);
    assert_eq!(shown(&came.messages), vec!["JOIN #Bob"]);
    assert!(target.target_type() == RoomTargetType::JoiningChan);
    assert!(target.join_chan().is_none());
}

#[test]
fn errors_go_out_with_the_next_text() {
    let mut target = RoomTarget::query("matrirc");
    target.set_error("oops");
    let sent = target.send_simple_query("nick", "hello");
    assert_eq!(
        shown(&sent.messages),
        vec!["matrirc NOTICE nick :oops", "matrirc PRIVMSG nick :hello"]
    );
    assert!(sent.flushes);
    target.sent("nick", 2);
    let sent = target.send_simple_query("nick", "again");
    assert_eq!(shown(&sent.messages), vec!["matrirc PRIVMSG nick :again"]);
}

#[test]
fn what_could_not_be_sent_still_waits() {
    let queue = |sent: usize| {
        let mut target = RoomTarget::query("matrirc");
        target.set_error("one\ntwo");
        target.set_error("three");
        target.set_error("four");
        let told = target.send_simple_query("nick", "hello");
        assert_eq!(told.messages.len(), 5);
        target.sent("nick", sent);
        shown(&target.flush_pending_messages("nick"))
    };
    let left = |texts: &[&str]| -> Vec<String> {
        texts.iter().map(|t| format!("matrirc NOTICE nick :{}", t)).collect()
    };
    // what was begun is out, though not all of it was sent
    assert_eq!(queue(0), left(&["three", "four"]));
    assert_eq!(queue(1), left(&["three", "four"]));
    assert_eq!(queue(2), left(&["four"]));
    assert_eq!(queue(3), left(&[]));
    assert_eq!(queue(4), left(&[]));
    assert_eq!(queue(5), left(&[]));
}

#[test]
fn a_join_that_could_not_be_ended_can_be_ended_later() {
    let joining = || {
        let mut target = RoomTarget::new(RoomTargetType::LeftChan, "room");
        assert!(target.fill_room_members(&three(), "room").is_ok());
        target.send_text_to_irc("nick", IrcMessageType::Privmsg, "@a:x", "one");
        target.send_text_to_irc("nick", IrcMessageType::Privmsg, "@b:x", "two");
        target.send_text_to_irc("nick", IrcMessageType::Privmsg, "@c:x", "three");
        target
    };
    // the names could not be told
    let mut target = joining();
    target.finish_join("nick", 2, 1);
    assert!(target.target_type() == RoomTargetType::JoiningChan);
    assert_eq!(target.flush_pending_messages("nick").len(), 3);
    // the second text could not be sent
    let mut target = joining();
    target.finish_join("nick", 2, 3);
    assert!(target.target_type() == RoomTargetType::JoiningChan);
    assert_eq!(
        shown(&target.flush_pending_messages("nick")),
        vec!["Carol PRIVMSG #room :three"]
    );
    // all was sent
    let mut target = joining();
    target.finish_join("nick", 2, 5);
    assert!(target.target_type() == RoomTargetType::Chan);
    assert!(target.flush_pending_messages("nick").is_empty());
}

#[test]
fn rooms_get_names_of_their_own() {
    let mut m = mappings();
    let a = m.try_room_target(&info("!a:x", "My Room"), Ok(three()), 1);
    let b = m.try_room_target(&info("!b:x", "MyRoom!"), Ok(three()), 2);
    assert!(matches!(a, Ok(TargetRef::Room(id)) if id == "!a:x"));
    let b = b.unwrap();
    assert_eq!(m.target_mut(&b).target(), "MyRoom_2");
    assert_eq!(m.to_matrix("MyRoom").ok(), Some(&1));
    assert_eq!(m.to_matrix("#MyRoom").ok(), Some(&1));
    assert_eq!(m.to_matrix("#MyRoom_2").ok(), Some(&2));
    assert_eq!(m.to_matrix("#nowhere").unwrap_err(), "No such target nowhere");
    assert_eq!(m.to_matrix("##MyRoom").unwrap_err(), "No such target #MyRoom");
    // asked for again, a room stays what it is
    let again = m.try_room_target(&info("!a:x", "Other"), Ok(vec![]), 9);
    assert!(matches!(again, Ok(TargetRef::Room(id)) if id == "!a:x"));
    assert_eq!(m.to_matrix("MyRoom").ok(), Some(&1));
    assert!(m.known_room("!a:x").is_some());
    assert!(m.known_room("!c:x").is_none());
}

#[test]
fn rooms_that_cannot_be_used_are_told_of() {
    let mut m = mappings();
    let t = m.room_target(&info("!a:x", "Empty Room"), Ok(vec![]), 1);
    assert!(matches!(t, TargetRef::Matrirc));
    let t = m.room_target(&info("!b:x", "Broken"), Err("timeout".to_string()), 2);
    assert!(matches!(t, TargetRef::Matrirc));
    let sent = m.matrirc_query("still here");
    assert_eq!(
        shown(&sent.messages),
        vec![
            "matrirc NOTICE nick :Could not find or create target: Message in empty room EmptyRoom?",
            "matrirc NOTICE nick :Could not find or create target: timeout",
            "matrirc PRIVMSG nick :still here",
        ]
    );
    assert!(sent.flushes);
    m.sent(&TargetRef::Matrirc, sent.messages.len());
    assert_eq!(shown(&m.matrirc_query("and here").messages), vec!["matrirc PRIVMSG nick :and here"]);
    // they are known from then on
    assert!(matches!(m.room_target(&info("!b:x", "Broken"), Ok(vec![]), 3), TargetRef::Room(_)));
    assert_eq!(m.to_matrix("Broken").ok(), Some(&2));
}

#[test]
fn names_can_be_given_and_freed() {
    let mut m = mappings();
    let one = m.insert_deduped("verif", 1);
    let two = m.insert_deduped("verif", 2);
    assert_eq!((one.target(), two.target()), ("verif".to_string(), "verif_2".to_string()));
    m.remove_target("verif");
    assert!(m.to_matrix("verif").is_err());
    assert_eq!(m.to_matrix("verif_2").ok(), Some(&2));
    assert_eq!(m.insert_deduped("verif", 3).target(), "verif");
}

#[test]
fn texts_are_told_where_they_belong() {
    let mut m = mappings();
    let told = m.tell(at("!a:x", "room", three()), IrcMessageType::Privmsg, "@b:x", "hi");
    assert!(told.delivery.joining);
    assert_eq!(shown(&told.delivery.messages), vec!["JOIN #room"]);
    assert!(m.can_complete_join(&told.target));
    let join = m.complete_join(&told.target);
    assert_eq!(join.messages.len(), 3);
    assert_eq!(join.names, 2);
    assert_eq!(show(&join.messages[2]), "Bob PRIVMSG #room :hi");
    m.finish_join(&told.target, join.names, 3);
    let told = m.tell_own(at("!a:x", "room", vec![]), "from the room");
    assert_eq!(shown(&told.delivery.messages), vec!["room PRIVMSG #room :from the room"]);
}

fn joined(id: &str, name: &str, tombstoned: bool, members: Result<Vec<Member>, String>) -> SyncRoom<u32> {
    SyncRoom { room: info(id, name), tombstoned, members, handler: 1 }
}

#[test]
fn rooms_are_gone_through_once() {
    let mut s: Matrirc<u32> = Matrirc::new(IrcClient::new("nick".to_string(), "user".to_string()));
    assert!(s.is_first());
    let rooms = VecDeque::from(vec![
        joined("!a:x", "old", true, Ok(three())),
        joined("!b:x", "new", false, Ok(three())),
    ]);
    let step = matrix_sync(&mut s, rooms);
    assert!(step.ctrl == LoopCtrl::Continue);
    assert!(step.error.is_none());
    assert_eq!(
        shown(&step.told.unwrap().messages),
        vec!["matrirc PRIVMSG nick :Finished initial room sync"]
    );
    assert!(s.mappings().known_room("!a:x").is_none());
    assert!(s.mappings().known_room("!b:x").is_some());
    assert!(!s.is_first());
    let step = matrix_sync(&mut s, VecDeque::new());
    assert!(step.ctrl == LoopCtrl::Continue);
    assert!(step.told.is_none());
    assert_eq!(show(&s.stop("done")), "ERROR :done");
    assert!(matrix_sync(&mut s, VecDeque::new()).ctrl == LoopCtrl::Break);
}

#[test]
fn going_through_rooms_stops_at_the_first_error() {
    let mut s: Matrirc<u32> = Matrirc::new(IrcClient::new("nick".to_string(), "user".to_string()));
    let rooms = VecDeque::from(vec![
        joined("!a:x", "a", false, Ok(three())),
        joined("!b:x", "b", false, Err("timeout".to_string())),
        joined("!c:x", "c", false, Ok(three())),
    ]);
    let step = matrix_sync(&mut s, rooms);
    assert!(step.ctrl == LoopCtrl::Break);
    assert_eq!(step.error, Some("timeout".to_string()));
    assert!(step.told.is_none());
    assert!(s.mappings().known_room("!a:x").is_some());
    assert!(s.mappings().known_room("!b:x").is_some());
    assert!(s.mappings().known_room("!c:x").is_none());
}

#[test]
fn sessions_run_until_they_are_stopped() {
    let mut s: Matrirc<u32> = Matrirc::new(IrcClient::new("nick".to_string(), "user".to_string()));
    assert_eq!((s.irc().nick.as_str(), s.irc().user.as_str()), ("nick", "user"));
    assert!(s.running() == Running::First);
    assert!(s.running() == Running::Continue);
    assert!(s.running() == Running::Continue);
    assert_eq!(show(&s.stop("over")), "ERROR :over");
    assert!(s.running() == Running::Break);
    assert!(s.running() == Running::Break);
}

#[test]
fn what_was_told_is_remembered() {
    let mut s: Matrirc<u32> = Matrirc::new(IrcClient::new("nick".to_string(), "user".to_string()));
    assert_eq!(s.message_get("$a"), None);
    s.message_put("$a", "one");
    s.message_put("$b", "two");
    s.message_put("$a", "three");
    assert_eq!(s.message_get("$a"), Some("three".to_string()));
    assert_eq!(s.message_get("$b"), Some("two".to_string()));
}

#[test]
fn texts_go_to_joined_rooms() {
    let mut room = OutgoingRoom { room_id: "!a:x".to_string(), joined: true };
    room.set_target(RoomTarget::query("x"));
    match room.handle_message("nick", MatrixMessageType::Text, "hi") {
        Ok(OutgoingContent::Text(t)) => assert_eq!(t, "hi"),
        other => panic!("{:?}", other),
    }
    match room.handle_message("nick", MatrixMessageType::Emote, "waves") {
        Ok(OutgoingContent::Emote(t)) => assert_eq!(t, "waves"),
        other => panic!("{:?}", other),
    }
    match room.handle_message("nick", MatrixMessageType::Notice, "psst") {
        Ok(OutgoingContent::Notice(t)) => assert_eq!(t, "psst"),
        other => panic!("{:?}", other),
    }
    room.joined = false;
    match room.handle_message("nick", MatrixMessageType::Text, "hi") {
        Err(e) => assert_eq!(e, "Room !a:x was not joined"),
        other => panic!("{:?}", other),
    }
}
