use matrirc::ircd::client::IrcClient;
use matrirc::ircd::proto::{ircd_sync_read, Command, IrcMessageType, Message, Prefix, ReadAction};
use matrirc::matrirc::Matrirc;
use matrirc::matrix::room_mappings::{EventRoom, MatrixMessageType, RoomInfo, TargetRef, Told};
use matrirc::matrix::room_target::Member;
use matrirc::matrix::sync_reaction::{
    get_message_from_event_id, message_like_to_str, on_sync_reaction, on_sync_reaction_heard,
    on_sync_room_redaction, on_sync_room_redaction_heard,
    reaction_message, reaction_text, reaction_with_name, redaction_message, MessageLikeEvent,
    ReactionEvent, RedactionEvent, TimelineEvent,
};
use matrirc::matrix::sync_room_member::{
    change_of, on_membership_change, on_room_member, MembershipChange, RoomMemberEvent,
};
use matrirc::matrix::sync_room_message::{
    hear, is_told, on_room_message, on_room_message_heard, process_message_like_to_str, Errand, Heard,
    Media, MediaServer, MediaSource, MediaUri, MessageContent, RoomMessageEvent, SourceUri,
};
use matrirc::matrix::time::{
    can_show, format_for, localtime_at, MilliSecondsSinceUnixEpoch, ToLocal,
};
use std::time::{SystemTime, UNIX_EPOCH};

fn show(m: &Message) -> String {
    let from = match &m.prefix {
        Some(Prefix::Nickname(n, _, _)) => format!("{} ", n),
        Some(Prefix::ServerName(s)) => format!("{} ", s),
        None => String::new(),
    };
    let what = match &m.command {
        Command::PRIVMSG(t, x) => format!("PRIVMSG {} :{}", t, x),
        Command::NOTICE(t, x) => format!("NOTICE {} :{}", t, x),
        Command::JOIN(c) => format!("JOIN {}", c),
        Command::PART(c) => format!("PART {}", c),
        other => format!("{:?}", other),
    };
    format!("{}{}", from, what)
}

fn told(t: &Told) -> Vec<String> {
    t.delivery.messages.iter().map(show).collect()
}

/// Ends the joining of a channel, with all of it sent.
fn join(s: &mut Matrirc<u32>, target: &TargetRef) -> Vec<String> {
    assert!(s.mappings().can_complete_join(target));
    let join = s.mappings().complete_join(target);
    let sent = join.messages.len();
    s.mappings_mut().finish_join(target, join.names, sent);
    join.messages.iter().map(show).collect()
}

fn session() -> Matrirc<u32> {
    Matrirc::new(IrcClient::new("nick".to_string(), "user".to_string()))
}

fn at(joined: bool) -> EventRoom<u32> {
    let member = |user_id: &str, name: &str| Member { user_id: user_id.to_string(), name: name.to_string() };
    EventRoom {
        joined,
        room: RoomInfo { id: "!r:x".to_string(), display_name: Some("Bob".to_string()), name: None },
        members: Ok(vec![member("@me:x", "Me"), member("@b:x", "Bob")]),
        handler: 1,
    }
}

fn now() -> MilliSecondsSinceUnixEpoch {
    let since = SystemTime::now().duration_since(UNIX_EPOCH).unwrap();
    MilliSecondsSinceUnixEpoch(since.as_millis() as u64)
}

fn ok(s: &str) -> Result<String, String> {
    Ok(s.to_string())
}

fn told_after(content: MessageContent, outcome: Result<(), String>, time: Option<&str>) -> (String, bool) {
    let time = time.map(|t| t.to_string());
    let (text, kind) = process_message_like_to_str(&content, &server(Some("/media"), None), &outcome, time);
    (text, kind == IrcMessageType::Notice)
}

fn told_of(content: MessageContent, time: Option<&str>) -> (String, bool) {
    told_after(content, Ok(()), time)
}

fn media(source: MediaSource) -> Media {
    Media { body: "body".to_string(), filename: "a b.png".to_string(), source }
}

fn plain() -> MediaSource {
    MediaSource::Plain("mxc://u".to_string())
}

#[test]
fn messages_are_put_in_words() {
    let b = || "body".to_string();
    let t = Some("12:00:00");
    assert_eq!(told_of(MessageContent::Text(b()), None), ("body".to_string(), false));
    assert_eq!(told_of(MessageContent::Text(b()), t), ("<12:00:00> body".to_string(), false));
    assert_eq!(
        told_of(MessageContent::Emote(b()), t),
        ("\u{001}ACTION <12:00:00> body".to_string(), false)
    );
    assert_eq!(told_of(MessageContent::Notice(b()), t), ("<12:00:00> body".to_string(), true));
    assert_eq!(told_of(MessageContent::ServerNotice(b()), None), ("body".to_string(), true));
    let link = "https://m.org/_matrix/media/r0/download/u";
    assert_eq!(
        told_of(MessageContent::File(media(plain())), t),
        (format!("<12:00:00> Sent a file, body: {}", link), true)
    );
    assert_eq!(
        told_of(MessageContent::Image(media(plain())), None),
        (format!("Sent an image, body: {}", link), true)
    );
    assert_eq!(
        told_of(MessageContent::Video(media(MediaSource::Encrypted)), None),
        ("Sent a video, body: /media/a%20b.png".to_string(), true)
    );
    let failed = || Err("disk full".to_string());
    assert_eq!(
        told_after(MessageContent::Audio(media(MediaSource::Encrypted)), failed(), None),
        ("Sent audio, body: disk full".to_string(), true)
    );
    assert_eq!(
        told_of(MessageContent::VerificationRequest, None),
        ("Sent a verification request".to_string(), true)
    );
    assert_eq!(
        told_after(MessageContent::VerificationRequest, failed(), None),
        ("Sent a verification request, but failed: disk full".to_string(), true)
    );
    let other = |has_data| MessageContent::Other { msgtype: "m.poll".to_string(), has_data, body: b() };
    assert_eq!(told_of(other(true), None), ("Sent m.poll (has data): body".to_string(), false));
    assert_eq!(told_of(other(false), t), ("<12:00:00> Sent m.poll: body".to_string(), false));
}

#[test]
fn emotes_are_read_back() {
    let (text, _) = told_of(MessageContent::Emote("waves".to_string()), Some("12:00:00"));
    let message = Message { prefix: None, command: Command::PRIVMSG("#c".to_string(), text) };
    match ircd_sync_read("nick", &message, 0) {
        ReadAction::Forward { message_type, text, .. } => {
            assert!(message_type == MatrixMessageType::Emote);
            assert_eq!(text, "<12:00:00> waves");
        }
        other => panic!("{:?}", other),
    }
}

fn server(dir: Option<&str>, url: Option<&str>) -> MediaServer {
    MediaServer {
        homeserver: "https://m.org//".to_string(),
        media_dir: dir.map(|d| d.to_string()),
        media_url: url.map(|u| u.to_string()),
    }
}

#[test]
fn errands_come_first() {
    let there = server(Some("/media"), None);
    let errand = |content: MessageContent| content.errand(&there);
    assert!(matches!(errand(MessageContent::Text("x".to_string())), Errand::Nothing));
    assert!(matches!(errand(MessageContent::VerificationRequest), Errand::Verify));
    assert!(matches!(errand(MessageContent::Image(media(plain()))), Errand::Nothing));
    assert!(matches!(
        errand(MessageContent::File(media(MediaSource::Encrypted))),
        Errand::Store(name) if name == "a b.png"
    ));
    let content = MessageContent::Video(media(MediaSource::Encrypted));
    assert!(matches!(content.errand(&server(None, None)), Errand::Nothing));
}

#[test]
fn plain_media_have_links() {
    let source = MediaSource::Plain("mxc://m.org/abc".to_string());
    match source.to_uri(&server(None, None), "x.png") {
        MediaUri::Uri(u) => assert_eq!(u, "https://m.org/_matrix/media/r0/download/m.org/abc"),
        other => panic!("{:?}", other),
    }
    let uri = source.to_uri(&server(None, None), "x.png");
    assert_eq!(
        uri.after_store(&Err("unused".to_string())),
        ok("https://m.org/_matrix/media/r0/download/m.org/abc")
    );
}

#[test]
fn encrypted_media_are_stored() {
    let body = "../etc/a b.png";
    match MediaSource::Encrypted.to_uri(&server(Some("/media"), None), body) {
        MediaUri::Store { filename, uri } => {
            assert_eq!(filename, "a b.png");
            assert_eq!(uri, "/media/a%20b.png");
        }
        other => panic!("{:?}", other),
    }
    let uri = || MediaSource::Encrypted.to_uri(&server(Some("/media"), Some("https://files")), body);
    assert_eq!(uri().after_store(&Ok(())), ok("https://files/a%20b.png"));
    assert_eq!(uri().after_store(&Err("disk full".to_string())), Err("disk full".to_string()));
    let refused = MediaSource::Encrypted.to_uri(&server(None, Some("https://files")), body);
    assert_eq!(refused.after_store(&Ok(())), Err("<encrypted, no media dir set>".to_string()));
}

fn heard(s: &mut Matrirc<u32>, event: &RoomMessageEvent, at: EventRoom<u32>) -> Option<Told> {
    on_room_message(s, event, at, &server(None, None), &Ok(()))
}

fn message(event_id: &str, own: bool, text: &str) -> RoomMessageEvent {
    RoomMessageEvent {
        event_id: event_id.to_string(),
        sender: "@b:x".to_string(),
        origin_server_ts: now(),
        own,
        content: MessageContent::Text(text.to_string()),
    }
}

#[test]
fn messages_are_told_and_remembered() {
    let mut s = session();
    let t = heard(&mut s, &message("$1", false, "hi\nyou"), at(true)).unwrap();
    assert_eq!(told(&t), vec!["Bob PRIVMSG nick :hi", "Bob PRIVMSG nick :you"]);
    assert_eq!(s.message_get("$1"), Some("hi\nyou".to_string()));
    let old = message("$2", false, "old");
    let heard = Heard { time: Some("09:00:00".to_string()), target: t.target };
    let t = on_room_message_heard(&mut s, &old, heard, &server(None, None), &Ok(()));
    assert_eq!(told(&t), vec!["Bob PRIVMSG nick :<09:00:00> old"]);
    assert_eq!(s.message_get("$2"), Some("<09:00:00> old".to_string()));
}

#[test]
fn own_messages_and_other_rooms_are_ignored() {
    let mut s = session();
    assert!(heard(&mut s, &message("$1", true, "hi"), at(true)).is_none());
    assert!(heard(&mut s, &message("$1", false, "hi"), at(false)).is_none());
    assert_eq!(s.message_get("$1"), None);
    assert!(s.mappings().known_room("!r:x").is_none());
    assert!(is_told(false, true));
    assert!(!is_told(true, true));
    assert!(!is_told(false, false));
}

#[test]
fn other_messages_in_short() {
    let b = || "body".to_string();
    assert_eq!(message_like_to_str(&MessageLikeEvent::NotAMessage), "(not a message)");
    assert_eq!(message_like_to_str(&MessageLikeEvent::Redacted), "(redacted)");
    assert_eq!(message_like_to_str(&MessageLikeEvent::Text(b())), "body");
    assert_eq!(message_like_to_str(&MessageLikeEvent::Emote(b())), "emote: body");
    assert_eq!(message_like_to_str(&MessageLikeEvent::Notice(b())), "body");
    assert_eq!(message_like_to_str(&MessageLikeEvent::ServerNotice(b())), "body");
    assert_eq!(message_like_to_str(&MessageLikeEvent::File(b())), "file: body");
    assert_eq!(message_like_to_str(&MessageLikeEvent::Image(b())), "image: body");
    assert_eq!(message_like_to_str(&MessageLikeEvent::Video(b())), "video: body");
    assert_eq!(message_like_to_str(&MessageLikeEvent::VerificationRequest), "(verification request)");
    let other = |has_data| MessageLikeEvent::Other { msgtype: "m.audio".to_string(), has_data, body: b() };
    assert_eq!(message_like_to_str(&other(true)), "m.audio (has data): body");
    assert_eq!(message_like_to_str(&other(false)), "m.audio: body");
}

fn timeline(message: Option<MessageLikeEvent>) -> TimelineEvent {
    TimelineEvent { sender: "@b:x".to_string(), origin_server_ts: now(), message }
}

#[test]
fn other_events_are_described() {
    let said = timeline(Some(MessageLikeEvent::Text("hi".to_string())));
    assert_eq!(said.describe(None), "message from @b:x @ just now: hi");
    assert_eq!(said.describe(Some("10:00:00".to_string())), "message from @b:x @ 10:00:00: hi");
    assert_eq!(timeline(None).describe(None), "not a message from @b:x @ just now");
}

#[test]
fn related_messages_are_recalled_or_fetched() {
    let mut s = session();
    let fetched = Ok(timeline(Some(MessageLikeEvent::Text("hi".to_string()))));
    assert_eq!(get_message_from_event_id(&s, "$1", &fetched), ok("message from @b:x @ just now: hi"));
    assert_eq!(
        get_message_from_event_id(&s, "$1", &Err("404".to_string())),
        Err("404".to_string())
    );
    s.message_put("$1", "what was told");
    assert_eq!(get_message_from_event_id(&s, "$1", &fetched), ok("what was told"));
}

#[test]
fn reactions_have_names() {
    assert_eq!(reaction_text("👍"), "👍 (thumbs up)");
    assert_eq!(reaction_text("no glyph"), "no glyph");
    assert_eq!(reaction_with_name("x", Some("name".to_string())), "x (name)");
    assert_eq!(reaction_with_name("x", None), "x");
}

#[test]
fn reactions_and_redactions_in_words() {
    assert_eq!(reaction_message(None, ok("hi"), "x"), "<Reacted to hi>: x");
    assert_eq!(
        reaction_message(Some("1".to_string()), Err("404".to_string()), "x"),
        "<1> <Reacted to <Could not retreive: 404>>: x"
    );
    assert_eq!(redaction_message(None, ok("hi"), &None), "<Redacted hi>: (no reason)");
    assert_eq!(
        redaction_message(Some("1".to_string()), ok("hi"), &Some("spam".to_string())),
        "<1> <Redacted hi>: spam"
    );
}

#[test]
fn reactions_are_told_and_remembered() {
    let mut s = session();
    let _ = heard(&mut s, &message("$1", false, "hi"), at(true));
    let mut event = ReactionEvent {
        event_id: "$2".to_string(),
        sender: "@me:x".to_string(),
        origin_server_ts: now(),
        own: false,
        key: "👍".to_string(),
        relates_to: "$1".to_string(),
    };
    let none = Err("not asked".to_string());
    let t = on_sync_reaction(&mut s, &event, at(true), &none).unwrap();
    assert_eq!(told(&t), vec!["Bob PRIVMSG nick :<Me> <Reacted to hi>: 👍 (thumbs up)"]);
    assert_eq!(s.message_get("$2"), Some("<Reacted to hi>: 👍 (thumbs up)".to_string()));
    event.own = true;
    assert!(on_sync_reaction(&mut s, &event, at(true), &none).is_none());
}

#[test]
fn redactions_are_told() {
    let mut s = session();
    let _ = heard(&mut s, &message("$1", false, "hi"), at(true));
    let mut event = RedactionEvent {
        sender: "@b:x".to_string(),
        origin_server_ts: now(),
        own: false,
        reason: None,
        redacts: Some("$1".to_string()),
    };
    let none = Err("404".to_string());
    let t = on_sync_room_redaction(&mut s, &event, at(true), &none).unwrap();
    assert_eq!(told(&t), vec!["Bob PRIVMSG nick :<Redacted hi>: (no reason)"]);
    event.redacts = None;
    let t = on_sync_room_redaction(&mut s, &event, at(true), &none).unwrap();
    assert_eq!(
        told(&t),
        vec!["Bob PRIVMSG nick :<Redacted <Could not retreive: no redacted event id>>: (no reason)"]
    );
    event.redacts = Some("$9".to_string());
    event.reason = Some("spam".to_string());
    let t = on_sync_room_redaction(&mut s, &event, at(true), &none).unwrap();
    assert_eq!(told(&t), vec!["Bob PRIVMSG nick :<Redacted <Could not retreive: 404>>: spam"]);
    assert!(on_sync_room_redaction(&mut s, &event, at(false), &none).is_none());
}

fn membership(now: &str, before: Option<&str>, sender: &str, state_key: &str) -> RoomMemberEvent {
    RoomMemberEvent {
        sender: sender.to_string(),
        state_key: state_key.to_string(),
        membership: now.to_string(),
        prev_membership: before.map(|b| b.to_string()),
        displayname: Some("Carol".to_string()),
        own: false,
    }
}

#[test]
fn changes_of_membership() {
    let of = |now, before, sender, key| change_of(&membership(now, before, sender, key));
    assert!(of("join", None, "@c:x", "@c:x") == MembershipChange::Joined);
    assert!(of("join", Some("leave"), "@c:x", "@c:x") == MembershipChange::Joined);
    assert!(of("join", Some("invite"), "@c:x", "@c:x") == MembershipChange::InvitationAccepted);
    assert!(of("leave", Some("join"), "@c:x", "@c:x") == MembershipChange::Left);
    assert!(of("leave", Some("join"), "@b:x", "@c:x") == MembershipChange::Other);
    assert!(of("invite", None, "@b:x", "@c:x") == MembershipChange::Invited);
    assert!(of("invite", Some("leave"), "@b:x", "@c:x") == MembershipChange::Invited);
    assert!(of("join", Some("join"), "@c:x", "@c:x") == MembershipChange::Other);
    assert!(of("ban", Some("join"), "@b:x", "@c:x") == MembershipChange::Other);
    assert!(of("join", Some("ban"), "@c:x", "@c:x") == MembershipChange::Other);
    assert!(of("weird", Some("odd"), "@c:x", "@c:x") == MembershipChange::Other);
    // what is no user id changes nothing
    assert!(of("join", None, "carol", "carol") == MembershipChange::Other);
}

#[test]
fn members_are_told_of() {
    let mut s = session();
    let invited = membership("invite", None, "@b:x", "@c:x");
    let t = on_room_member(&mut s, &invited, at(true)).unwrap();
    assert_eq!(told(&t), vec!["Bob NOTICE nick :<invited Carol>"]);
    let joined = membership("join", Some("invite"), "@c:x", "@c:x");
    let t = on_room_member(&mut s, &joined, at(true)).unwrap();
    assert!(t.delivery.joining);
    assert_eq!(told(&t), vec!["JOIN #Bob"]);
    join(&mut s, &t.target);
    let left = membership("leave", Some("join"), "@c:x", "@c:x");
    let t = on_room_member(&mut s, &left, at(true)).unwrap();
    assert_eq!(told(&t), vec!["Carol PART #Bob"]);
    let t = on_room_member(&mut s, &left, at(true)).unwrap();
    assert!(told(&t).is_empty());
    let t = on_room_member(&mut s, &joined, at(true)).unwrap();
    assert_eq!(told(&t), vec!["Carol JOIN #Bob"]);
    assert!(on_room_member(&mut s, &joined, at(false)).is_none());
}

#[test]
fn changes_that_are_not_told_still_make_the_room_known() {
    let mut s = session();
    let banned = membership("ban", Some("join"), "@b:x", "@c:x");
    let t = on_room_member(&mut s, &banned, at(true)).unwrap();
    assert!(told(&t).is_empty());
    assert!(s.mappings().known_room("!r:x").is_some());
    let t = on_membership_change(s.mappings_mut(), MembershipChange::Invited, "@b:x", &None, at(true));
    assert_eq!(told(&t), vec!["Bob NOTICE nick :<invited ???>"]);
}

#[test]
fn times_are_put_by_their_distance() {
    let full = Some("%Y-%m-%d %H:%M:%S");
    let clock = Some("%H:%M:%S");
    let now = 1_700_000_000;
    let ago = |millis: i64, nanos: u32| format_for((now * 1000 - millis) as u64, now, nanos);
    assert_eq!(ago(0, 0), None);
    assert_eq!(ago(10_000, 0), None);
    assert_eq!(ago(10_000, 1), clock);
    assert_eq!(ago(10_001, 0), clock);
    assert_eq!(ago(43_200_000, 0), clock);
    assert_eq!(ago(43_200_000, 1), full);
    assert_eq!(ago(-9_999, 0), None);
    assert_eq!(ago(-10_000, 0), full);
    assert_eq!(ago(-10_000, 1), None);
    // only the distance counts
    assert_eq!(format_for(5_000_000, 6_000, 0), format_for(1_700_000_000_000, 1_700_001_000, 0));
}

#[test]
fn times_are_formatted() {
    let at = |millis, secs, offset| localtime_at(millis, secs, 0, offset);
    assert_eq!(at(1_000_000_000_000, 1_000_000_000, 0), None);
    assert_eq!(at(1_000_000_000_000, 1_000_000_060, 0), Some("01:46:40".to_string()));
    assert_eq!(at(1_000_000_000_000, 1_000_000_060, 3600), Some("02:46:40".to_string()));
    assert_eq!(at(1_000_000_000_000, 1_000_100_000, 0), Some("2001-09-09 01:46:40".to_string()));
    assert_eq!(at(1_000_000_000_000, 0, -7200), Some("2001-09-08 23:46:40".to_string()));
}

#[test]
fn times_are_shown_now() {
    assert_eq!(now().localtime(), None);
    let long_ago = MilliSecondsSinceUnixEpoch(86_400_000).localtime().unwrap();
    assert!(long_ago.starts_with("1970-01-0"));
    assert_eq!(long_ago.len(), 19);
    assert!(can_show(MilliSecondsSinceUnixEpoch(8_210_266_876_799_999)));
    assert!(!can_show(MilliSecondsSinceUnixEpoch(8_210_266_876_800_000)));
    let last = MilliSecondsSinceUnixEpoch(8_210_266_876_799_999).localtime();
    assert!(last.is_some());
}

/// A user id in which a character lies across the sixth byte.
const UNCUT: &str = "@bébé:x";

fn broken() -> EventRoom<u32> {
    EventRoom { members: Err("timeout".to_string()), ..at(true) }
}

fn crowded() -> EventRoom<u32> {
    let member = |user_id: &str, name: &str| Member { user_id: user_id.to_string(), name: name.to_string() };
    let members = vec![member("@a:x", "Alice"), member(UNCUT, "Bébé"), member("@c:x", "Carol")];
    EventRoom { members: Ok(members), ..at(true) }
}

#[test]
fn everyone_is_heard_in_a_query() {
    let mut s = session();
    assert!(s.mappings().can_hear(&at(true), UNCUT));
    let mut event = message("$1", false, "hi");
    event.sender = UNCUT.to_string();
    let t = heard(&mut s, &event, at(true)).unwrap();
    assert_eq!(told(&t), vec!["Bob PRIVMSG nick :<@bébé:x> hi"]);
    let reaction = ReactionEvent {
        event_id: "$2".to_string(),
        sender: UNCUT.to_string(),
        origin_server_ts: now(),
        own: false,
        key: "x".to_string(),
        relates_to: "$1".to_string(),
    };
    let t = on_sync_reaction(&mut s, &reaction, at(true), &Err(String::new())).unwrap();
    assert_eq!(told(&t), vec!["Bob PRIVMSG nick :<@bébé:x> <Reacted to hi>: x"]);
}

#[test]
fn everyone_is_heard_in_the_own_query() {
    let mut s = session();
    assert!(s.mappings().can_hear(&broken(), UNCUT));
    let invited = membership("invite", None, UNCUT, "@c:x");
    assert!(invited.is_invitation());
    let t = on_room_member(&mut s, &invited, broken()).unwrap();
    assert!(matches!(t.target, TargetRef::Matrirc));
    assert_eq!(
        told(&t),
        vec![
            "matrirc NOTICE nick :Could not find or create target: timeout".to_string(),
            "matrirc NOTICE nick :<@bébé:x> <invited Carol>".to_string(),
        ]
    );
}

#[test]
fn members_are_heard_in_a_channel() {
    let mut s = session();
    assert!(s.mappings().can_hear(&crowded(), UNCUT));
    assert!(s.mappings().can_hear(&crowded(), "@z:x"));
    // who is not in the room is heard as long as the channel is not joined
    assert!(s.mappings().can_hear(&crowded(), "@dédé:x"));
    let mut event = message("$1", false, "hi");
    event.sender = UNCUT.to_string();
    let t = heard(&mut s, &event, crowded()).unwrap();
    assert!(t.delivery.joining);
    assert!(s.mappings().can_hear(&at(true), "@dédé:x"));
    let sent = join(&mut s, &t.target);
    assert_eq!(sent[2], "Bb PRIVMSG #Bob :hi");
    // the channel is joined now
    assert!(s.mappings().can_hear(&at(true), UNCUT));
    assert!(!s.mappings().can_hear(&at(true), "@dédé:x"));
    assert!(s.mappings().can_hear_at(&t.target, UNCUT));
    assert!(!s.mappings().can_hear_at(&t.target, "@dédé:x"));
    assert!(s.mappings().can_hear_at(&TargetRef::Matrirc, "@dédé:x"));
}

#[test]
fn nicks_that_cannot_be_cut_wait_in_a_channel() {
    let mut s = session();
    let mut event = message("$1", false, "hi");
    event.sender = "@dédé:x".to_string();
    let t = heard(&mut s, &event, crowded()).unwrap();
    assert_eq!(told(&t), vec!["JOIN #Bob"]);
    assert!(t.delivery.joining);
    // the text waits, and cannot go out
    assert!(!s.mappings().can_complete_join(&t.target));
    assert!(s.mappings().can_complete_join(&TargetRef::Matrirc));
}

#[test]
fn events_are_taken_up_first() {
    let mut s = session();
    assert!(hear(&mut s, true, now(), at(true)).is_none());
    assert!(hear(&mut s, false, now(), at(false)).is_none());
    assert!(s.mappings().known_room("!r:x").is_none());
    let up = hear(&mut s, false, now(), at(true)).unwrap();
    assert!(s.mappings().known_room("!r:x").is_some());
    assert!(matches!(&up.target, TargetRef::Room(id) if id == "!r:x"));
    assert_eq!(up.time, None);
    let redaction = RedactionEvent {
        sender: "@b:x".to_string(),
        origin_server_ts: now(),
        own: false,
        reason: None,
        redacts: None,
    };
    let t = on_sync_room_redaction_heard(&mut s, &redaction, up, &Err(String::new()));
    assert_eq!(
        told(&t),
        vec!["Bob PRIVMSG nick :<Redacted <Could not retreive: no redacted event id>>: (no reason)"]
    );
    let up = Heard { target: t.target, time: Some("1".to_string()) };
    let reaction = ReactionEvent {
        event_id: "$2".to_string(),
        sender: "@b:x".to_string(),
        origin_server_ts: now(),
        own: false,
        key: "x".to_string(),
        relates_to: "$9".to_string(),
    };
    let t = on_sync_reaction_heard(&mut s, &reaction, up, &Err("404".to_string()));
    assert_eq!(
        told(&t),
        vec!["Bob PRIVMSG nick :<1> <Reacted to <Could not retreive: 404>>: x"]
    );
}

#[test]
fn invitations_are_told_apart() {
    assert!(membership("invite", None, "@b:x", "@c:x").is_invitation());
    assert!(membership("invite", Some("leave"), "@b:x", "@c:x").is_invitation());
    assert!(!membership("invite", Some("join"), "@b:x", "@c:x").is_invitation());
    assert!(!membership("join", None, "@c:x", "@c:x").is_invitation());
}
