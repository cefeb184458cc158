//! Reactions to messages and messages taken back, as the client is told of them.

use vstd::prelude::*;
use vstd::string::*;

use crate::ircd::proto::{opt_text, IrcMessageType};
use crate::matrirc::{Matrirc, MatrircView};
use crate::matrix::room_mappings::{EventRoom, EventRoomView, TargetRefView, Told};
use crate::matrix::sync_room_message::{
    data_note, hear, prefix_for, text_result, time_prefix, Heard,
};
use crate::matrix::time::{has_date, shown_sometime, MilliSecondsSinceUnixEpoch, ToLocal};
use crate::text::{cat2, cat3, cat4, cat5};

verus! {

/// A message that another one is about.
#[derive(Debug)]
pub enum MessageLikeEvent {
    /// Something that is no message.
    NotAMessage,
    /// A message that was taken back.
    Redacted,
    Text(String),
    Emote(String),
    Notice(String),
    ServerNotice(String),
    File(String),
    Image(String),
    Video(String),
    VerificationRequest,
    /// Any other message.
    Other { msgtype: String, has_data: bool, body: String },
}

/// What a [`MessageLikeEvent`] holds.
pub enum MessageLikeView {
    NotAMessage,
    Redacted,
    Text(Seq<char>),
    Emote(Seq<char>),
    Notice(Seq<char>),
    ServerNotice(Seq<char>),
    File(Seq<char>),
    Image(Seq<char>),
    Video(Seq<char>),
    VerificationRequest,
    Other { msgtype: Seq<char>, has_data: bool, body: Seq<char> },
}

impl View for MessageLikeEvent {
    type V = MessageLikeView;

    open spec fn view(&self) -> MessageLikeView {
        match *self {
            MessageLikeEvent::NotAMessage => MessageLikeView::NotAMessage,
            MessageLikeEvent::Redacted => MessageLikeView::Redacted,
            MessageLikeEvent::Text(body) => MessageLikeView::Text(body@),
            MessageLikeEvent::Emote(body) => MessageLikeView::Emote(body@),
            MessageLikeEvent::Notice(body) => MessageLikeView::Notice(body@),
            MessageLikeEvent::ServerNotice(body) => MessageLikeView::ServerNotice(body@),
            MessageLikeEvent::File(body) => MessageLikeView::File(body@),
            MessageLikeEvent::Image(body) => MessageLikeView::Image(body@),
            MessageLikeEvent::Video(body) => MessageLikeView::Video(body@),
            MessageLikeEvent::VerificationRequest => MessageLikeView::VerificationRequest,
            MessageLikeEvent::Other { msgtype, has_data, body } => MessageLikeView::Other {
                msgtype: msgtype@,
                has_data,
                body: body@,
            },
        }
    }
}

impl MessageLikeView {
    /// What the message said, in one line of prose.
    pub open spec fn in_short(self) -> Seq<char> {
        match self {
            MessageLikeView::NotAMessage => "(not a message)"@,
            MessageLikeView::Redacted => "(redacted)"@,
            MessageLikeView::Text(body) => body,
            MessageLikeView::Emote(body) => "emote: "@ + body,
            MessageLikeView::Notice(body) => body,
            MessageLikeView::ServerNotice(body) => body,
            MessageLikeView::File(body) => "file: "@ + body,
            MessageLikeView::Image(body) => "image: "@ + body,
            MessageLikeView::Video(body) => "video: "@ + body,
            MessageLikeView::VerificationRequest => "(verification request)"@,
            MessageLikeView::Other { msgtype, has_data, body } => msgtype + data_note(has_data) + ": "@
                + body,
        }
    }
}

/// What a message said, in short.
pub fn message_like_to_str(event: &MessageLikeEvent) -> (r: String)
    ensures
        r@ == event@.in_short(),
{
    match event {
        MessageLikeEvent::NotAMessage => "(not a message)".to_owned(),
        MessageLikeEvent::Redacted => "(redacted)".to_owned(),
        MessageLikeEvent::Text(body) => body.clone(),
        MessageLikeEvent::Emote(body) => cat2("emote: ", body),
        MessageLikeEvent::Notice(body) => body.clone(),
        MessageLikeEvent::ServerNotice(body) => body.clone(),
        MessageLikeEvent::File(body) => cat2("file: ", body),
        MessageLikeEvent::Image(body) => cat2("image: ", body),
        MessageLikeEvent::Video(body) => cat2("video: ", body),
        MessageLikeEvent::VerificationRequest => "(verification request)".to_owned(),
        MessageLikeEvent::Other { msgtype, has_data, body } => {
            let data: &str = if *has_data {
                " (has data)"
            } else {
                ""
            };
            cat4(msgtype, data, ": ", body)
        },
    }
}

/// An event that another one is about.
#[derive(Debug)]
pub struct TimelineEvent {
    pub sender: String,
    pub origin_server_ts: MilliSecondsSinceUnixEpoch,
    /// what was said, but for a change of the room's state
    pub message: Option<MessageLikeEvent>,
}

/// When an event was, in words.
pub open spec fn when(time: Option<Seq<char>>) -> Seq<char> {
    match time {
        Some(t) => t,
        None => "just now"@,
    }
}

impl TimelineEvent {
    /// What the client is told of an event that is shown as of `time`.
    pub open spec fn described(self, time: Option<Seq<char>>) -> Seq<char> {
        match self.message {
            Some(m) => "message from "@ + self.sender@ + " @ "@ + when(time) + ": "@ + m@.in_short(),
            None => "not a message from "@ + self.sender@ + " @ "@ + when(time),
        }
    }

    /// What the client is told of an event that is shown as of `time`.
    pub fn describe(&self, time: Option<String>) -> (r: String)
        ensures
            r@ == self.described(opt_text(time)),
    {
        let at: String = match time {
            Some(t) => t,
            None => "just now".to_owned(),
        };
        match &self.message {
            Some(m) => {
                let message = message_like_to_str(m);
                let from = cat4("message from ", &self.sender, " @ ", &at);
                cat3(&from, ": ", &message)
            },
            None => cat4("not a message from ", &self.sender, " @ ", &at),
        }
    }
}

impl<H> MatrircView<H> {
    /// Whether `r` is what is said of the event that another one is about: what the client was
    /// told of it, if that is remembered, or else what asking the server for it gives.
    pub open spec fn recalls(
        self,
        event_id: Seq<char>,
        fetched: Result<TimelineEvent, String>,
        r: Result<Seq<char>, Seq<char>>,
    ) -> bool {
        match self.told(event_id) {
            Some(message) => r == Ok::<Seq<char>, Seq<char>>(message),
            None => match fetched {
                Err(e) => r == Err::<Seq<char>, Seq<char>>(e@),
                Ok(event) => exists|time: Option<Seq<char>>|
                    {
                        &&& #[trigger] shown_sometime(event.origin_server_ts.0 as int, time)
                        &&& r == Ok::<Seq<char>, Seq<char>>(event.described(time))
                    },
            },
        }
    }

    /// Whether what asking the server for an event gave can be shown, where it is needed.
    pub open spec fn can_recall(self, event_id: Seq<char>, fetched: Result<TimelineEvent, String>) -> bool {
        self.told(event_id) is None ==> (fetched matches Ok(event) ==> has_date(
            event.origin_server_ts.0 as int,
        ))
    }
}

/// What is said of the event that another one is about. `fetched` is what asking the server
/// for it gave; it is not used where the client was told of the event.
pub fn get_message_from_event_id<H>(
    matrirc: &Matrirc<H>,
    event_id: &str,
    fetched: &Result<TimelineEvent, String>,
) -> (r: Result<String, String>)
    requires
        matrirc.wf(),
        matrirc@.can_recall(event_id@, *fetched),
    ensures
        matrirc@.recalls(event_id@, *fetched, text_result(r)),
{
    if let Some(message) = matrirc.message_get(event_id) {
        return Ok(message);
    }
    match fetched {
        Err(e) => Err(e.clone()),
        Ok(event) => {
            let time = event.origin_server_ts.localtime();
            let ghost shown = opt_text(time);
            assert(shown_sometime(event.origin_server_ts.0 as int, shown));
            Ok(event.describe(time))
        },
    }
}

/// The name that `emoji::lookup_by_glyph::lookup` finds for a glyph, if it knows the glyph.
pub uninterp spec fn emoji_name(glyph: Seq<char>) -> Option<Seq<char>>;

/// `emoji::lookup_by_glyph::lookup` looks a glyph up in a fixed table, which gives its name.
#[verifier::external_body]
fn lookup_emoji(glyph: &str) -> (r: Option<String>)
    ensures
        opt_text(r) == emoji_name(glyph@),
{
    emoji::lookup_by_glyph::lookup(glyph).map(|e| e.name.to_string())
}

/// A reaction as the client is told of it: with the name of the glyph behind it, if it has one.
pub open spec fn named_reaction(key: Seq<char>, name: Option<Seq<char>>) -> Seq<char> {
    match name {
        Some(n) => key + " ("@ + n + ")"@,
        None => key,
    }
}

/// A reaction with the name of its glyph, if it has one.
pub fn reaction_with_name(key: &str, name: Option<String>) -> (r: String)
    ensures
        r@ == named_reaction(key@, opt_text(name)),
{
    match name {
        Some(n) => cat4(key, " (", &n, ")"),
        None => key.to_owned(),
    }
}

/// A reaction as the client is told of it.
pub fn reaction_text(key: &str) -> (r: String)
    ensures
        r@ == named_reaction(key@, emoji_name(key@)),
{
    reaction_with_name(key, lookup_emoji(key))
}

/// The event that another one is about, or why it is not known.
pub open spec fn about(message: Result<Seq<char>, Seq<char>>) -> Seq<char> {
    match message {
        Ok(m) => m,
        Err(e) => "<Could not retreive: "@ + e + ">"@,
    }
}

fn about_text(message: Result<String, String>) -> (r: String)
    ensures
        r@ == about(text_result(message)),
{
    match message {
        Ok(m) => m,
        Err(e) => cat3("<Could not retreive: ", &e, ">"),
    }
}

/// What the client is told of a reaction that is shown as of `time`.
pub open spec fn reaction_told(
    time: Option<Seq<char>>,
    related: Result<Seq<char>, Seq<char>>,
    reaction: Seq<char>,
) -> Seq<char> {
    time_prefix(time) + "<Reacted to "@ + about(related) + ">: "@ + reaction
}

/// What the client is told of a reaction that is shown as of `time`.
pub fn reaction_message(
    time: Option<String>,
    related: Result<String, String>,
    reaction: &str,
) -> (r: String)
    ensures
        r@ == reaction_told(opt_text(time), text_result(related), reaction@),
{
    cat5(&prefix_for(time), "<Reacted to ", &about_text(related), ">: ", reaction)
}

/// What the client is told of a message taken back, as of `time`.
pub open spec fn redaction_told(
    time: Option<Seq<char>>,
    related: Result<Seq<char>, Seq<char>>,
    reason: Option<Seq<char>>,
) -> Seq<char> {
    time_prefix(time) + "<Redacted "@ + about(related) + ">: "@ + match reason {
        Some(r) => r,
        None => "(no reason)"@,
    }
}

/// What the client is told of a message taken back, as of `time`.
pub fn redaction_message(
    time: Option<String>,
    related: Result<String, String>,
    reason: &Option<String>,
) -> (r: String)
    ensures
        r@ == redaction_told(opt_text(time), text_result(related), opt_text(*reason)),
{
    let reason: &str = match reason {
        Some(r) => r,
        None => "(no reason)",
    };
    cat5(&prefix_for(time), "<Redacted ", &about_text(related), ">: ", reason)
}

/// A reaction to a message.
pub struct ReactionEvent {
    pub event_id: String,
    pub sender: String,
    pub origin_server_ts: MilliSecondsSinceUnixEpoch,
    /// whether it came from this very client
    pub own: bool,
    /// the glyph
    pub key: String,
    /// the message that it is a reaction to
    pub relates_to: String,
}

/// Whether `told` and `after` are what a reaction leads to, when it is shown as of `time` and
/// `related` is said of the message that it is a reaction to.
pub open spec fn on_reaction_at<H>(
    before: Matrirc<H>,
    event: ReactionEvent,
    at: EventRoomView<H>,
    time: Option<Seq<char>>,
    related: Result<Seq<char>, Seq<char>>,
    after: Matrirc<H>,
    told: Told,
) -> bool {
    let text = reaction_told(time, related, named_reaction(event.key@, emoji_name(event.key@)));
    &&& after@ == before@.remembering(event.event_id@, text).after_event(
        at,
        IrcMessageType::Privmsg,
        event.sender@,
        text,
    )
    &&& before@.mappings.tells(at, IrcMessageType::Privmsg, event.sender@, text, told)
}

/// Tells the client of a reaction, and remembers what it was told. `fetched` is what asking
/// the server for the message it is a reaction to gave.
pub fn on_sync_reaction<H>(
    matrirc: &mut Matrirc<H>,
    event: &ReactionEvent,
    at: EventRoom<H>,
    fetched: &Result<TimelineEvent, String>,
) -> (r: Option<Told>)
    requires
        old(matrirc).wf(),
        old(matrirc)@.mappings.well_named(),
        !event.own && at.joined ==> {
            &&& has_date(event.origin_server_ts.0 as int)
            &&& old(matrirc)@.can_recall(event.relates_to@, *fetched)
            &&& old(matrirc)@.mappings.can_hear(at@, event.sender@)
        },
    ensures
        final(matrirc).wf(),
        final(matrirc)@.mappings.well_named(),
        r is Some <==> !event.own && at.joined,
        r is None ==> final(matrirc)@ == old(matrirc)@,
        r matches Some(told) ==> exists|time: Option<Seq<char>>, related: Result<Seq<char>, Seq<char>>|
            {
                &&& #[trigger] shown_sometime(event.origin_server_ts.0 as int, time)
                &&& #[trigger] old(matrirc)@.recalls(event.relates_to@, *fetched, related)
                &&& on_reaction_at(*old(matrirc), *event, at@, time, related, *final(matrirc), told)
            },
{
    let ghost room = at@;
    match hear(matrirc, event.own, event.origin_server_ts, at) {
        None => None,
        Some(heard) => {
            let ghost time = opt_text(heard.time);
            let ghost up = matrirc@;
            let ghost t = heard.target@;
            let told = on_sync_reaction_heard(matrirc, event, heard, fetched);
            proof {
                let related = choose|related: Result<Seq<char>, Seq<char>>|
                    {
                        &&& #[trigger] up.recalls(event.relates_to@, *fetched, related)
                        &&& on_reaction_heard(up, *event, t, time, related, matrirc@, told)
                    };
                assert(shown_sometime(event.origin_server_ts.0 as int, time));
                assert(old(matrirc)@.recalls(event.relates_to@, *fetched, related));
                assert(on_reaction_at(*old(matrirc), *event, room, time, related, *matrirc, told));
            }
            Some(told)
        },
    }
}

/// Whether `told` and `after` are what a reaction that was taken up leads to, when it is shown
/// as of `time` and `related` is said of the message that it is a reaction to.
pub open spec fn on_reaction_heard<H>(
    before: MatrircView<H>,
    event: ReactionEvent,
    t: TargetRefView,
    time: Option<Seq<char>>,
    related: Result<Seq<char>, Seq<char>>,
    after: MatrircView<H>,
    told: Told,
) -> bool {
    let text = reaction_told(time, related, named_reaction(event.key@, emoji_name(event.key@)));
    &&& after == before.remembering(event.event_id@, text).after_text_at(
        t,
        IrcMessageType::Privmsg,
        event.sender@,
        text,
    )
    &&& before.mappings.tells_at(t, IrcMessageType::Privmsg, event.sender@, text, told)
}

/// Tells the client of a reaction that was taken up, and remembers what it was told.
pub fn on_sync_reaction_heard<H>(
    matrirc: &mut Matrirc<H>,
    event: &ReactionEvent,
    heard: Heard,
    fetched: &Result<TimelineEvent, String>,
) -> (r: Told)
    requires
        old(matrirc).wf(),
        old(matrirc)@.mappings.well_named(),
        old(matrirc)@.can_recall(event.relates_to@, *fetched),
        old(matrirc)@.mappings.has_target(heard.target@),
        old(matrirc)@.mappings.target(heard.target@).hears(event.sender@),
    ensures
        final(matrirc).wf(),
        final(matrirc)@.mappings.well_named(),
        exists|related: Result<Seq<char>, Seq<char>>|
            {
                &&& #[trigger] old(matrirc)@.recalls(event.relates_to@, *fetched, related)
                &&& on_reaction_heard(
                    old(matrirc)@,
                    *event,
                    heard.target@,
                    opt_text(heard.time),
                    related,
                    final(matrirc)@,
                    r,
                )
            },
{
    let reaction = reaction_text(&event.key);
    let related = get_message_from_event_id(matrirc, &event.relates_to, fetched);
    let ghost said = text_result(related);
    let ghost before = matrirc@;
    let ghost t = heard.target@;
    let ghost time = opt_text(heard.time);
    assert(before.recalls(event.relates_to@, *fetched, said));
    let message = reaction_message(heard.time, related, &reaction);
    matrirc.message_put(&event.event_id, &message);
    let told = matrirc.mappings_mut().tell_at(
        heard.target,
        IrcMessageType::Privmsg,
        &event.sender,
        &message,
    );
    assert(on_reaction_heard(before, *event, t, time, said, matrirc@, told));
    told
}

/// A message taken back.
pub struct RedactionEvent {
    pub sender: String,
    pub origin_server_ts: MilliSecondsSinceUnixEpoch,
    /// whether it came from this very client
    pub own: bool,
    pub reason: Option<String>,
    /// the message that was taken back
    pub redacts: Option<String>,
}

impl<H> MatrircView<H> {
    /// Whether `r` is what is said of the message that was taken back.
    pub open spec fn recalls_redacted(
        self,
        redacts: Option<String>,
        fetched: Result<TimelineEvent, String>,
        r: Result<Seq<char>, Seq<char>>,
    ) -> bool {
        match redacts {
            None => r == Err::<Seq<char>, Seq<char>>("no redacted event id"@),
            Some(id) => self.recalls(id@, fetched, r),
        }
    }
}

/// Whether `told` and `after` are what a message taken back leads to, when it is shown as of
/// `time` and `related` is said of that message.
pub open spec fn on_redaction_at<H>(
    before: Matrirc<H>,
    event: RedactionEvent,
    at: EventRoomView<H>,
    time: Option<Seq<char>>,
    related: Result<Seq<char>, Seq<char>>,
    after: Matrirc<H>,
    told: Told,
) -> bool {
    let text = redaction_told(time, related, opt_text(event.reason));
    &&& after@ == before@.after_event(at, IrcMessageType::Privmsg, event.sender@, text)
    &&& before@.mappings.tells(at, IrcMessageType::Privmsg, event.sender@, text, told)
}

/// Tells the client of a message taken back. `fetched` is what asking the server for that
/// message gave.
pub fn on_sync_room_redaction<H>(
    matrirc: &mut Matrirc<H>,
    event: &RedactionEvent,
    at: EventRoom<H>,
    fetched: &Result<TimelineEvent, String>,
) -> (r: Option<Told>)
    requires
        old(matrirc).wf(),
        old(matrirc)@.mappings.well_named(),
        !event.own && at.joined ==> {
            &&& has_date(event.origin_server_ts.0 as int)
            &&& event.redacts matches Some(id) ==> old(matrirc)@.can_recall(id@, *fetched)
            &&& old(matrirc)@.mappings.can_hear(at@, event.sender@)
        },
    ensures
        final(matrirc).wf(),
        final(matrirc)@.mappings.well_named(),
        r is Some <==> !event.own && at.joined,
        r is None ==> final(matrirc)@ == old(matrirc)@,
        r matches Some(told) ==> exists|time: Option<Seq<char>>, related: Result<Seq<char>, Seq<char>>|
            {
                &&& #[trigger] shown_sometime(event.origin_server_ts.0 as int, time)
                &&& #[trigger] old(matrirc)@.recalls_redacted(event.redacts, *fetched, related)
                &&& on_redaction_at(*old(matrirc), *event, at@, time, related, *final(matrirc), told)
            },
{
    let ghost room = at@;
    match hear(matrirc, event.own, event.origin_server_ts, at) {
        None => None,
        Some(heard) => {
            let ghost time = opt_text(heard.time);
            let ghost up = matrirc@;
            let ghost t = heard.target@;
            let told = on_sync_room_redaction_heard(matrirc, event, heard, fetched);
            proof {
                let related = choose|related: Result<Seq<char>, Seq<char>>|
                    {
                        &&& #[trigger] up.recalls_redacted(event.redacts, *fetched, related)
                        &&& on_redaction_heard(up, *event, t, time, related, matrirc@, told)
                    };
                assert(shown_sometime(event.origin_server_ts.0 as int, time));
                assert(old(matrirc)@.recalls_redacted(event.redacts, *fetched, related));
                assert(on_redaction_at(*old(matrirc), *event, room, time, related, *matrirc, told));
            }
            Some(told)
        },
    }
}

/// Whether `told` and `after` are what a message taken back leads to once that was taken up,
/// when it is shown as of `time` and `related` is said of that message.
pub open spec fn on_redaction_heard<H>(
    before: MatrircView<H>,
    event: RedactionEvent,
    t: TargetRefView,
    time: Option<Seq<char>>,
    related: Result<Seq<char>, Seq<char>>,
    after: MatrircView<H>,
    told: Told,
) -> bool {
    let text = redaction_told(time, related, opt_text(event.reason));
    &&& after == before.after_text_at(t, IrcMessageType::Privmsg, event.sender@, text)
    &&& before.mappings.tells_at(t, IrcMessageType::Privmsg, event.sender@, text, told)
}

/// Tells the client of a message taken back, once that was taken up.
pub fn on_sync_room_redaction_heard<H>(
    matrirc: &mut Matrirc<H>,
    event: &RedactionEvent,
    heard: Heard,
    fetched: &Result<TimelineEvent, String>,
) -> (r: Told)
    requires
        old(matrirc).wf(),
        old(matrirc)@.mappings.well_named(),
        event.redacts matches Some(id) ==> old(matrirc)@.can_recall(id@, *fetched),
        old(matrirc)@.mappings.has_target(heard.target@),
        old(matrirc)@.mappings.target(heard.target@).hears(event.sender@),
    ensures
        final(matrirc).wf(),
        final(matrirc)@.mappings.well_named(),
        exists|related: Result<Seq<char>, Seq<char>>|
            {
                &&& #[trigger] old(matrirc)@.recalls_redacted(event.redacts, *fetched, related)
                &&& on_redaction_heard(
                    old(matrirc)@,
                    *event,
                    heard.target@,
                    opt_text(heard.time),
                    related,
                    final(matrirc)@,
                    r,
                )
            },
{
    let related: Result<String, String> = match &event.redacts {
        None => Err("no redacted event id".to_owned()),
        Some(redacts) => get_message_from_event_id(matrirc, redacts, fetched),
    };
    let ghost said = text_result(related);
    let ghost before = matrirc@;
    let ghost t = heard.target@;
    let ghost time = opt_text(heard.time);
    assert(before.recalls_redacted(event.redacts, *fetched, said));
    let message = redaction_message(heard.time, related, &event.reason);
    let told = matrirc.mappings_mut().tell_at(
        heard.target,
        IrcMessageType::Privmsg,
        &event.sender,
        &message,
    );
    assert(on_redaction_heard(before, *event, t, time, said, matrirc@, told));
    told
}

/// What the client was told of a message is what is said of it when someone reacts to it or
/// takes it back, whatever the server gives.
pub proof fn what_was_told_is_recalled<H>(
    v: MatrircView<H>,
    event_id: Seq<char>,
    text: Seq<char>,
    fetched: Result<TimelineEvent, String>,
    related: Result<Seq<char>, Seq<char>>,
)
    requires
        v.remembering(event_id, text).recalls(event_id, fetched, related),
    ensures
        about(related) == text,
{
}

/// What is said of a message in short: its text, with its kind before it unless it is a text or
/// a notice; something that is no message, one that was taken back and a request for
/// verification by what they are.
pub proof fn messages_are_put_in_short(body: Seq<char>, msgtype: Seq<char>)
    ensures
        MessageLikeView::Text(body).in_short() == body,
        MessageLikeView::Notice(body).in_short() == body,
        MessageLikeView::ServerNotice(body).in_short() == body,
        MessageLikeView::Emote(body).in_short() == "emote: "@ + body,
        MessageLikeView::File(body).in_short() == "file: "@ + body,
        MessageLikeView::Image(body).in_short() == "image: "@ + body,
        MessageLikeView::Video(body).in_short() == "video: "@ + body,
        MessageLikeView::NotAMessage.in_short() == "(not a message)"@,
        MessageLikeView::Redacted.in_short() == "(redacted)"@,
        MessageLikeView::VerificationRequest.in_short() == "(verification request)"@,
        (MessageLikeView::Other { msgtype, has_data: true, body }).in_short() == msgtype
            + " (has data)"@ + ": "@ + body,
        (MessageLikeView::Other { msgtype, has_data: false, body }).in_short() == msgtype + ": "@
            + body,
{
    reveal_strlit("");
    assert(msgtype + ""@ =~= msgtype);
}

/// An event that the client was not told of is described by who sent it and when, and a message
/// by what it says.
pub proof fn events_are_described(event: TimelineEvent, time: Option<Seq<char>>)
    ensures
        ({
            let at = match time {
                Some(t) => t,
                None => "just now"@,
            };
            event.described(time) == match event.message {
                Some(m) => "message from "@ + event.sender@ + " @ "@ + at + ": "@ + m@.in_short(),
                None => "not a message from "@ + event.sender@ + " @ "@ + at,
            }
        }),
{
}

/// The client is told of a reaction by its glyph, with the name behind it where it has one, and
/// of a message taken back by the reason, or that there is none; each with when it was and with
/// what was reacted to or taken back, or why that is not known.
pub proof fn reactions_are_told_in_words(
    time: Option<Seq<char>>,
    related: Result<Seq<char>, Seq<char>>,
    key: Seq<char>,
    name: Option<Seq<char>>,
    reason: Option<Seq<char>>,
)
    ensures
        named_reaction(key, name) == match name {
            Some(n) => key + seq![' ', '('] + n + seq![')'],
            None => key,
        },
        ({
            let at = match time {
                Some(d) => seq!['<'] + d + seq!['>', ' '],
                None => Seq::empty(),
            };
            let what = match related {
                Ok(m) => m,
                Err(e) => "<Could not retreive: "@ + e + ">"@,
            };
            &&& about(related) == what
            &&& reaction_told(time, related, key) == at + "<Reacted to "@ + what + ">: "@ + key
            &&& redaction_told(time, related, reason) == at + "<Redacted "@ + what + ">: "@
                + match reason {
                Some(r) => r,
                None => "(no reason)"@,
            }
        }),
{
    reveal_strlit("<");
    reveal_strlit("> ");
    reveal_strlit(" (");
    reveal_strlit(")");
    assert("<"@ =~= seq!['<']);
    assert("> "@ =~= seq!['>', ' ']);
    assert(" ("@ =~= seq![' ', '(']);
    assert(")"@ =~= seq![')']);
}

/// What is said of an event that the client was not told of is what the server gives: its
/// description as of some time at which it can be shown, or the error. Of a message taken back
/// without its id nothing is known.
pub proof fn what_was_not_told_is_asked_for<H>(
    v: MatrircView<H>,
    event_id: Seq<char>,
    fetched: Result<TimelineEvent, String>,
    id: String,
    r: Result<Seq<char>, Seq<char>>,
)
    requires
        v.told(event_id) is None,
        v.recalls(event_id, fetched, r),
    ensures
        (match fetched {
            Err(e) => r == Err::<Seq<char>, Seq<char>>(e@),
            Ok(event) => exists|time: Option<Seq<char>>|
                {
                    &&& #[trigger] shown_sometime(event.origin_server_ts.0 as int, time)
                    &&& r == Ok::<Seq<char>, Seq<char>>(event.described(time))
                },
        }),
        id@ == event_id ==> v.recalls_redacted(Some(id), fetched, r),
        v.recalls_redacted(None, fetched, Err("no redacted event id"@)),
        !v.recalls_redacted(None, fetched, Ok(event_id)),
{
}

/// A reaction is told in its room as a text from who reacted, and remembered like a message; a
/// message taken back is told likewise, and leaves what is remembered.
pub proof fn reactions_are_remembered<H>(
    before: Matrirc<H>,
    reaction: ReactionEvent,
    redaction: RedactionEvent,
    at: EventRoomView<H>,
    time: Option<Seq<char>>,
    related: Result<Seq<char>, Seq<char>>,
    after: Matrirc<H>,
    told: Told,
)
    ensures
        ({
            let text = reaction_told(
                time,
                related,
                named_reaction(reaction.key@, emoji_name(reaction.key@)),
            );
            on_reaction_at(before, reaction, at, time, related, after, told) ==> {
                &&& after@.told(reaction.event_id@) == Some(text)
                &&& after@.running == before@.running
                &&& after@.mappings == before@.mappings.after_event(
                    at,
                    IrcMessageType::Privmsg,
                    reaction.sender@,
                    text,
                )
                &&& before@.mappings.tells(
                    at,
                    IrcMessageType::Privmsg,
                    reaction.sender@,
                    text,
                    told,
                )
            }
        }),
        ({
            let text = redaction_told(time, related, opt_text(redaction.reason));
            on_redaction_at(before, redaction, at, time, related, after, told) ==> {
                &&& after@.messages == before@.messages
                &&& after@.running == before@.running
                &&& after@.mappings == before@.mappings.after_event(
                    at,
                    IrcMessageType::Privmsg,
                    redaction.sender@,
                    text,
                )
                &&& before@.mappings.tells(
                    at,
                    IrcMessageType::Privmsg,
                    redaction.sender@,
                    text,
                    told,
                )
            }
        }),
{
}

/// A reaction that was taken up is told as a text from who reacted, where that was taken up, and
/// is remembered by its own id; a message taken back is told likewise, and leaves what is
/// remembered.
pub proof fn taken_up_reactions_are_told<H>(
    before: MatrircView<H>,
    reaction: ReactionEvent,
    redaction: RedactionEvent,
    t: TargetRefView,
    time: Option<Seq<char>>,
    related: Result<Seq<char>, Seq<char>>,
    after: MatrircView<H>,
    told: Told,
)
    ensures
        ({
            let text = reaction_told(
                time,
                related,
                named_reaction(reaction.key@, emoji_name(reaction.key@)),
            );
            on_reaction_heard(before, reaction, t, time, related, after, told) ==> {
                &&& after.told(reaction.event_id@) == Some(text)
                &&& after.running == before.running
                &&& after.mappings == before.mappings.after_text_at(
                    t,
                    IrcMessageType::Privmsg,
                    reaction.sender@,
                    text,
                )
                &&& before.mappings.tells_at(
                    t,
                    IrcMessageType::Privmsg,
                    reaction.sender@,
                    text,
                    told,
                )
            }
        }),
        ({
            let text = redaction_told(time, related, opt_text(redaction.reason));
            on_redaction_heard(before, redaction, t, time, related, after, told) ==> {
                &&& after.messages == before.messages
                &&& after.running == before.running
                &&& after.mappings == before.mappings.after_text_at(
                    t,
                    IrcMessageType::Privmsg,
                    redaction.sender@,
                    text,
                )
                &&& before.mappings.tells_at(
                    t,
                    IrcMessageType::Privmsg,
                    redaction.sender@,
                    text,
                    told,
                )
            }
        }),
{
}

} // verus!
