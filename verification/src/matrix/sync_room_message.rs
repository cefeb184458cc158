//! Messages in rooms, as the client is told of them.

use vstd::prelude::*;
use vstd::string::*;

use crate::ircd::proto::{
    opt_text, read_action, CommandView, IrcMessageType, ReadActionView,
};
use crate::matrirc::{Matrirc, MatrircView};
use crate::matrix::percent::{percent_encode, percent_encoded};
use crate::matrix::room_mappings::{
    EventRoom, EventRoomView, MatrixMessageType, TargetRef, TargetRefView, Told,
};
use crate::matrix::time::{has_date, shown_sometime, MilliSecondsSinceUnixEpoch, ToLocal};
use crate::text::{
    after_last, after_last_is_the_end, behind_last, cat2, cat3, cat4, cat5,
    occurrences_are_replaced, replace_all, replaced, trim_end, trimmed_end,
};

verus! {

/// Where media are, and where those that had to be decrypted are kept.
#[derive(Debug)]
pub struct MediaServer {
    pub homeserver: String,
    /// where decrypted files are written
    pub media_dir: Option<String>,
    /// what to put before the name of such a file in a link
    pub media_url: Option<String>,
}

/// What a [`MediaServer`] holds.
pub struct MediaServerView {
    pub homeserver: Seq<char>,
    pub media_dir: Option<Seq<char>>,
    pub media_url: Option<Seq<char>>,
}

impl View for MediaServer {
    type V = MediaServerView;

    open spec fn view(&self) -> MediaServerView {
        MediaServerView {
            homeserver: self.homeserver@,
            media_dir: opt_text(self.media_dir),
            media_url: opt_text(self.media_url),
        }
    }
}

/// Where a file that was sent to a room is.
#[derive(Debug)]
pub enum MediaSource {
    /// On a server, under this URI.
    Plain(String),
    /// On a server, encrypted.
    Encrypted,
}

/// What a [`MediaSource`] holds.
pub enum MediaSourceView {
    Plain(Seq<char>),
    Encrypted,
}

impl View for MediaSource {
    type V = MediaSourceView;

    open spec fn view(&self) -> MediaSourceView {
        match *self {
            MediaSource::Plain(uri) => MediaSourceView::Plain(uri@),
            MediaSource::Encrypted => MediaSourceView::Encrypted,
        }
    }
}

/// How a link to a file is come by.
#[derive(Debug)]
pub enum MediaUri {
    /// The link.
    Uri(String),
    /// There is none, for this reason.
    Refused(String),
    /// The file has to be written to the media directory under this name; then the link is
    /// this.
    Store { filename: String, uri: String },
}

/// What a [`MediaUri`] holds.
pub enum MediaUriView {
    Uri(Seq<char>),
    Refused(Seq<char>),
    Store { filename: Seq<char>, uri: Seq<char> },
}

impl View for MediaUri {
    type V = MediaUriView;

    open spec fn view(&self) -> MediaUriView {
        match *self {
            MediaUri::Uri(uri) => MediaUriView::Uri(uri@),
            MediaUri::Refused(e) => MediaUriView::Refused(e@),
            MediaUri::Store { filename, uri } => MediaUriView::Store {
                filename: filename@,
                uri: uri@,
            },
        }
    }
}

/// What a result with texts holds.
pub open spec fn text_result(r: Result<String, String>) -> Result<Seq<char>, Seq<char>> {
    match r {
        Ok(t) => Ok(t@),
        Err(e) => Err(e@),
    }
}

/// What a result without a value holds.
pub open spec fn unit_result(r: Result<(), String>) -> Result<(), Seq<char>> {
    match r {
        Ok(()) => Ok(()),
        Err(e) => Err(e@),
    }
}

impl MediaUriView {
    /// The link, once the file was written or was not.
    pub open spec fn stored(self, outcome: Result<(), Seq<char>>) -> Result<Seq<char>, Seq<char>> {
        match self {
            MediaUriView::Uri(uri) => Ok(uri),
            MediaUriView::Refused(e) => Err(e),
            MediaUriView::Store { uri, .. } => match outcome {
                Ok(()) => Ok(uri),
                Err(e) => Err(e),
            },
        }
    }
}

impl MediaUri {
    /// The link, once the file was written or was not.
    pub fn after_store(self, outcome: &Result<(), String>) -> (r: Result<String, String>)
        ensures
            text_result(r) == self@.stored(unit_result(*outcome)),
    {
        match self {
            MediaUri::Uri(uri) => Ok(uri),
            MediaUri::Refused(e) => Err(e),
            MediaUri::Store { filename: _, uri } => match outcome {
                Ok(()) => Ok(uri),
                Err(e) => Err(e.clone()),
            },
        }
    }
}

/// What a link to a file can be made from.
pub trait SourceUri {
    /// How the link is come by, for a file of some name.
    spec fn uri_of(&self, server: MediaServerView, body: Seq<char>) -> MediaUriView;

    /// How the link is come by, for a file of some name.
    fn to_uri(&self, server: &MediaServer, body: &str) -> (r: MediaUri)
        ensures
            r@ == self.uri_of(server@, body@),
    ;
}

/// A `mxc` URI as a link to a server.
pub open spec fn download_uri(uri: Seq<char>, homeserver: Seq<char>) -> Seq<char> {
    replaced(uri, "mxc://"@, trimmed_end(homeserver, '/') + "/_matrix/media/r0/download/"@)
}

/// How a link to an encrypted file is come by: it is written to the media directory under the
/// part of its name behind the last slash.
pub open spec fn stored_uri(server: MediaServerView, body: Seq<char>) -> MediaUriView {
    match server.media_dir {
        None => MediaUriView::Refused("<encrypted, no media dir set>"@),
        Some(dir) => {
            let filename = after_last(body, '/');
            let url = match server.media_url {
                Some(url) => url,
                None => dir,
            };
            MediaUriView::Store { filename, uri: url + "/"@ + percent_encoded(filename) }
        },
    }
}

impl MediaSourceView {
    /// How a link to the file is come by: one that is not encrypted is on a server.
    pub open spec fn uri(self, server: MediaServerView, body: Seq<char>) -> MediaUriView {
        match self {
            MediaSourceView::Plain(uri) => MediaUriView::Uri(download_uri(uri, server.homeserver)),
            MediaSourceView::Encrypted => stored_uri(server, body),
        }
    }
}

impl SourceUri for MediaSource {
    open spec fn uri_of(&self, server: MediaServerView, body: Seq<char>) -> MediaUriView {
        self@.uri(server, body)
    }

    fn to_uri(&self, server: &MediaServer, body: &str) -> (r: MediaUri) {
        match self {
            MediaSource::Plain(uri) => {
                let download = cat2(
                    &trim_end(&server.homeserver, '/'),
                    "/_matrix/media/r0/download/",
                );
                proof {
                    reveal_strlit("mxc://");
                }
                MediaUri::Uri(replace_all(uri, "mxc://", &download))
            },
            MediaSource::Encrypted => match &server.media_dir {
                None => MediaUri::Refused("<encrypted, no media dir set>".to_owned()),
                Some(dir_path) => {
                    let filename = behind_last(body, '/');
                    let url: &String = match &server.media_url {
                        Some(url) => url,
                        None => dir_path,
                    };
                    let uri = cat3(url, "/", &percent_encode(&filename));
                    MediaUri::Store { filename, uri }
                },
            },
        }
    }
}

/// Whatever a file is called, it is written to the media directory itself: the name it gets
/// there is an end of the one it had and holds no slash.
pub proof fn stored_names_hold_no_slash(server: MediaServerView, body: Seq<char>)
    ensures
        stored_uri(server, body) matches MediaUriView::Store { filename, .. } ==> {
            &&& !filename.contains('/')
            &&& filename.len() <= body.len()
            &&& filename == body.skip(body.len() - filename.len())
        },
{
    after_last_is_the_end(body, '/');
}

/// A file that was sent to a room.
#[derive(Debug)]
pub struct Media {
    pub body: String,
    pub filename: String,
    pub source: MediaSource,
}

/// What a [`Media`] holds.
pub struct MediaView {
    pub body: Seq<char>,
    pub filename: Seq<char>,
    pub source: MediaSourceView,
}

impl View for Media {
    type V = MediaView;

    open spec fn view(&self) -> MediaView {
        MediaView { body: self.body@, filename: self.filename@, source: self.source@ }
    }
}

/// What a message in a room says.
#[derive(Debug)]
pub enum MessageContent {
    Text(String),
    Emote(String),
    Notice(String),
    ServerNotice(String),
    File(Media),
    Image(Media),
    Video(Media),
    Audio(Media),
    /// A request to verify a device.
    VerificationRequest,
    /// Anything else.
    Other { msgtype: String, has_data: bool, body: String },
}

/// What a [`MessageContent`] holds.
pub enum MessageContentView {
    Text(Seq<char>),
    Emote(Seq<char>),
    Notice(Seq<char>),
    ServerNotice(Seq<char>),
    File(MediaView),
    Image(MediaView),
    Video(MediaView),
    Audio(MediaView),
    VerificationRequest,
    Other { msgtype: Seq<char>, has_data: bool, body: Seq<char> },
}

impl View for MessageContent {
    type V = MessageContentView;

    open spec fn view(&self) -> MessageContentView {
        match *self {
            MessageContent::Text(body) => MessageContentView::Text(body@),
            MessageContent::Emote(body) => MessageContentView::Emote(body@),
            MessageContent::Notice(body) => MessageContentView::Notice(body@),
            MessageContent::ServerNotice(body) => MessageContentView::ServerNotice(body@),
            MessageContent::File(media) => MessageContentView::File(media@),
            MessageContent::Image(media) => MessageContentView::Image(media@),
            MessageContent::Video(media) => MessageContentView::Video(media@),
            MessageContent::Audio(media) => MessageContentView::Audio(media@),
            MessageContent::VerificationRequest => MessageContentView::VerificationRequest,
            MessageContent::Other { msgtype, has_data, body } => MessageContentView::Other {
                msgtype: msgtype@,
                has_data,
                body: body@,
            },
        }
    }
}

/// What has to be done before the client is told of a message.
#[derive(Debug)]
pub enum Errand {
    Nothing,
    /// A file is decrypted and written to the media directory under this name.
    Store(String),
    /// The client is asked about a request for verification.
    Verify,
}

/// What an [`Errand`] holds.
pub enum ErrandView {
    Nothing,
    Store(Seq<char>),
    Verify,
}

impl View for Errand {
    type V = ErrandView;

    open spec fn view(&self) -> ErrandView {
        match *self {
            Errand::Nothing => ErrandView::Nothing,
            Errand::Store(filename) => ErrandView::Store(filename@),
            Errand::Verify => ErrandView::Verify,
        }
    }
}

impl MediaView {
    /// Whether the file has to be written, and under which name.
    pub open spec fn errand(self, server: MediaServerView) -> ErrandView {
        match self.source.uri(server, self.filename) {
            MediaUriView::Store { filename, .. } => ErrandView::Store(filename),
            _ => ErrandView::Nothing,
        }
    }

    /// The link, or why there is none, once the file was written or was not.
    pub open spec fn link(self, server: MediaServerView, outcome: Result<(), Seq<char>>) -> Seq<char> {
        match self.source.uri(server, self.filename).stored(outcome) {
            Ok(uri) => uri,
            Err(e) => e,
        }
    }
}

impl Media {
    fn errand(&self, server: &MediaServer) -> (r: Errand)
        ensures
            r@ == self@.errand(server@),
    {
        match self.source.to_uri(server, &self.filename) {
            MediaUri::Store { filename, uri: _ } => Errand::Store(filename),
            _ => Errand::Nothing,
        }
    }

    fn link(&self, server: &MediaServer, outcome: &Result<(), String>) -> (r: String)
        ensures
            r@ == self@.link(server@, unit_result(*outcome)),
    {
        match self.source.to_uri(server, &self.filename).after_store(outcome) {
            Ok(uri) => uri,
            Err(e) => e,
        }
    }
}

impl MessageContentView {
    /// What has to be done before the client is told.
    pub open spec fn errand(self, server: MediaServerView) -> ErrandView {
        match self {
            MessageContentView::File(media) => media.errand(server),
            MessageContentView::Image(media) => media.errand(server),
            MessageContentView::Video(media) => media.errand(server),
            MessageContentView::Audio(media) => media.errand(server),
            MessageContentView::VerificationRequest => ErrandView::Verify,
            _ => ErrandView::Nothing,
        }
    }
}

impl MessageContent {
    /// What has to be done before the client is told.
    pub fn errand(&self, server: &MediaServer) -> (r: Errand)
        ensures
            r@ == self@.errand(server@),
    {
        match self {
            MessageContent::File(media) => media.errand(server),
            MessageContent::Image(media) => media.errand(server),
            MessageContent::Video(media) => media.errand(server),
            MessageContent::Audio(media) => media.errand(server),
            MessageContent::VerificationRequest => Errand::Verify,
            _ => Errand::Nothing,
        }
    }
}

/// What is put before a message to say when it was sent, if anything.
pub open spec fn time_prefix(time: Option<Seq<char>>) -> Seq<char> {
    match time {
        Some(d) => "<"@ + d + "> "@,
        None => Seq::empty(),
    }
}

/// What the client is told of data that it cannot be shown.
pub open spec fn data_note(has_data: bool) -> Seq<char> {
    if has_data {
        " (has data)"@
    } else {
        ""@
    }
}

impl MessageContentView {
    /// What the client is told, where the message was sent at `time` and what had to be done
    /// before came out as `outcome`.
    pub open spec fn told(
        self,
        server: MediaServerView,
        outcome: Result<(), Seq<char>>,
        time: Option<Seq<char>>,
    ) -> Seq<char> {
        let at = time_prefix(time);
        match self {
            MessageContentView::Text(body) => at + body,
            MessageContentView::Emote(body) => "\u{001}ACTION "@ + at + body,
            MessageContentView::Notice(body) => at + body,
            MessageContentView::ServerNotice(body) => at + body,
            MessageContentView::File(media) => at + "Sent a file, "@ + media.body + ": "@ + media.link(
                server,
                outcome,
            ),
            MessageContentView::Image(media) => at + "Sent an image, "@ + media.body + ": "@
                + media.link(server, outcome),
            MessageContentView::Video(media) => at + "Sent a video, "@ + media.body + ": "@
                + media.link(server, outcome),
            MessageContentView::Audio(media) => at + "Sent audio, "@ + media.body + ": "@ + media.link(
                server,
                outcome,
            ),
            MessageContentView::VerificationRequest => match outcome {
                Err(e) => at + "Sent a verification request, but failed: "@ + e,
                Ok(()) => at + "Sent a verification request"@,
            },
            MessageContentView::Other { msgtype, has_data, body } => at + "Sent "@ + msgtype + data_note(
                has_data,
            ) + ": "@ + body,
        }
    }

    /// Whether the client is told as `PRIVMSG` or as `NOTICE`.
    pub open spec fn told_as(self) -> IrcMessageType {
        match self {
            MessageContentView::Text(_) | MessageContentView::Emote(_)
            | MessageContentView::Other { .. } => IrcMessageType::Privmsg,
            _ => IrcMessageType::Notice,
        }
    }
}

/// What is put before a message to say when it was sent.
pub fn prefix_for(time: Option<String>) -> (r: String)
    ensures
        r@ == time_prefix(opt_text(time)),
{
    match time {
        Some(d) => cat3("<", &d, "> "),
        None => String::new(),
    }
}

/// What the client is told of a message that was sent at `time`, where what had to be done
/// before came out as `outcome`.
pub fn process_message_like_to_str(
    content: &MessageContent,
    server: &MediaServer,
    outcome: &Result<(), String>,
    time: Option<String>,
) -> (r: (String, IrcMessageType))
    ensures
        r.0@ == content@.told(server@, unit_result(*outcome), opt_text(time)),
        r.1 == content@.told_as(),
{
    let at = prefix_for(time);
    match content {
        MessageContent::Text(body) => (cat2(&at, body), IrcMessageType::Privmsg),
        MessageContent::Emote(body) => (
            cat3("\u{001}ACTION ", &at, body),
            IrcMessageType::Privmsg,
        ),
        MessageContent::Notice(body) => (cat2(&at, body), IrcMessageType::Notice),
        MessageContent::ServerNotice(body) => (cat2(&at, body), IrcMessageType::Notice),
        MessageContent::File(media) => {
            let url = media.link(server, outcome);
            (cat5(&at, "Sent a file, ", &media.body, ": ", &url), IrcMessageType::Notice)
        },
        MessageContent::Image(media) => {
            let url = media.link(server, outcome);
            (cat5(&at, "Sent an image, ", &media.body, ": ", &url), IrcMessageType::Notice)
        },
        MessageContent::Video(media) => {
            let url = media.link(server, outcome);
            (cat5(&at, "Sent a video, ", &media.body, ": ", &url), IrcMessageType::Notice)
        },
        MessageContent::Audio(media) => {
            let url = media.link(server, outcome);
            (cat5(&at, "Sent audio, ", &media.body, ": ", &url), IrcMessageType::Notice)
        },
        MessageContent::VerificationRequest => match outcome {
            Err(e) => (
                cat3(&at, "Sent a verification request, but failed: ", e),
                IrcMessageType::Notice,
            ),
            Ok(()) => (cat2(&at, "Sent a verification request"), IrcMessageType::Notice),
        },
        MessageContent::Other { msgtype, has_data, body } => {
            let data: &str = if *has_data {
                " (has data)"
            } else {
                ""
            };
            let sent = cat4(&at, "Sent ", msgtype, data);
            (cat3(&sent, ": ", body), IrcMessageType::Privmsg)
        },
    }
}

/// A message in a room.
pub struct RoomMessageEvent {
    pub event_id: String,
    pub sender: String,
    pub origin_server_ts: MilliSecondsSinceUnixEpoch,
    /// whether it came from this very client
    pub own: bool,
    pub content: MessageContent,
}

/// Whether what happened in a room is told to the client: not what this very client did, nor
/// what happened in a room that the user is not in.
pub fn is_told(own: bool, joined: bool) -> (r: bool)
    ensures
        r == (!own && joined),
{
    !own && joined
}

impl<H> MatrircView<H> {
    /// After the client was told a text of an event in a room.
    pub open spec fn after_event(
        self,
        at: EventRoomView<H>,
        message_type: IrcMessageType,
        sender: Seq<char>,
        text: Seq<char>,
    ) -> Self {
        MatrircView {
            mappings: self.mappings.after_event(at, message_type, sender, text),
            ..self
        }
    }

    /// After an event in a room was taken up: the room is known.
    pub open spec fn taken_up(self, at: EventRoomView<H>) -> Self {
        MatrircView {
            mappings: self.mappings.resolved(at.room, at.members, at.handler),
            ..self
        }
    }

    /// After the client was told a text of an event where a reference leads.
    pub open spec fn after_text_at(
        self,
        t: TargetRefView,
        message_type: IrcMessageType,
        sender: Seq<char>,
        text: Seq<char>,
    ) -> Self {
        MatrircView {
            mappings: self.mappings.after_text_at(t, message_type, sender, text),
            ..self
        }
    }

    /// After the text of an event was remembered.
    pub open spec fn remembering(self, event_id: Seq<char>, text: Seq<char>) -> Self {
        MatrircView { messages: self.messages.insert(event_id, text), ..self }
    }
}

/// Where an event is told, and how its time is shown.
#[derive(Debug)]
pub struct Heard {
    pub target: TargetRef,
    pub time: Option<String>,
}

/// Takes up an event in a room, if it is one to tell the client of: the room is made known, and
/// it is settled how the time of the event is shown.
pub fn hear<H>(
    matrirc: &mut Matrirc<H>,
    own: bool,
    ts: MilliSecondsSinceUnixEpoch,
    at: EventRoom<H>,
) -> (r: Option<Heard>)
    requires
        old(matrirc).wf(),
        !own && at.joined ==> has_date(ts.0 as int),
    ensures
        final(matrirc).wf(),
        old(matrirc)@.mappings.well_named() ==> final(matrirc)@.mappings.well_named(),
        (match r {
            None => (own || !at.joined) && final(matrirc)@ == old(matrirc)@,
            Some(heard) => {
                &&& !own && at.joined
                &&& final(matrirc)@ == old(matrirc)@.taken_up(at@)
                &&& heard.target@ == old(matrirc)@.mappings.room_ref(at.room@, at@.members)
                &&& final(matrirc)@.mappings.has_target(heard.target@)
                &&& shown_sometime(ts.0 as int, opt_text(heard.time))
            },
        }),
{
    if !is_told(own, at.joined) {
        return None;
    }
    let target = matrirc.mappings_mut().room_target(&at.room, at.members, at.handler);
    let time = ts.localtime();
    Some(Heard { target, time })
}

/// Tells the client of a message in a room, and remembers what it was told. `outcome` is how
/// what had to be done before came out.
pub fn on_room_message<H>(
    matrirc: &mut Matrirc<H>,
    event: &RoomMessageEvent,
    at: EventRoom<H>,
    server: &MediaServer,
    outcome: &Result<(), String>,
) -> (r: Option<Told>)
    requires
        old(matrirc).wf(),
        old(matrirc)@.mappings.well_named(),
        !event.own && at.joined ==> {
            &&& has_date(event.origin_server_ts.0 as int)
            &&& old(matrirc)@.mappings.can_hear(at@, event.sender@)
        },
    ensures
        final(matrirc).wf(),
        final(matrirc)@.mappings.well_named(),
        r is Some <==> !event.own && at.joined,
        r is None ==> final(matrirc)@ == old(matrirc)@,
        r matches Some(told) ==> exists|time: Option<Seq<char>>|
            {
                &&& #[trigger] shown_sometime(event.origin_server_ts.0 as int, time)
                &&& on_message_told(
                    *old(matrirc),
                    *event,
                    at@,
                    event.content@.told(server@, unit_result(*outcome), time),
                    *final(matrirc),
                    told,
                )
            },
{
    let ghost room = at@;
    match hear(matrirc, event.own, event.origin_server_ts, at) {
        None => None,
        Some(heard) => {
            let ghost time = opt_text(heard.time);
            let told = on_room_message_heard(matrirc, event, heard, server, outcome);
            proof {
                let text = event.content@.told(server@, unit_result(*outcome), time);
                assert(shown_sometime(event.origin_server_ts.0 as int, time));
                assert(on_message_told(*old(matrirc), *event, room, text, *matrirc, told));
            }
            Some(told)
        },
    }
}

/// Whether `told` and `after` are what a message in a room leads to, when the client is told
/// `text` of it.
pub open spec fn on_message_told<H>(
    before: Matrirc<H>,
    event: RoomMessageEvent,
    at: EventRoomView<H>,
    text: Seq<char>,
    after: Matrirc<H>,
    told: Told,
) -> bool {
    let kind = event.content@.told_as();
    &&& after@ == before@.remembering(event.event_id@, text).after_event(at, kind, event.sender@, text)
    &&& before@.mappings.tells(at, kind, event.sender@, text, told)
}

/// Tells the client of a message that was taken up, and remembers what it was told.
pub fn on_room_message_heard<H>(
    matrirc: &mut Matrirc<H>,
    event: &RoomMessageEvent,
    heard: Heard,
    server: &MediaServer,
    outcome: &Result<(), String>,
) -> (r: Told)
    requires
        old(matrirc).wf(),
        old(matrirc)@.mappings.well_named(),
        old(matrirc)@.mappings.has_target(heard.target@),
        old(matrirc)@.mappings.target(heard.target@).hears(event.sender@),
    ensures
        final(matrirc).wf(),
        final(matrirc)@.mappings.well_named(),
        ({
            let before = old(matrirc)@;
            let t = heard.target@;
            let kind = event.content@.told_as();
            let text = event.content@.told(server@, unit_result(*outcome), opt_text(heard.time));
            &&& final(matrirc)@ == before.remembering(event.event_id@, text).after_text_at(
                t,
                kind,
                event.sender@,
                text,
            )
            &&& before.mappings.tells_at(t, kind, event.sender@, text, r)
        }),
{
    let (message, message_type) = process_message_like_to_str(
        &event.content,
        server,
        outcome,
        heard.time,
    );
    matrirc.message_put(&event.event_id, &message);
    matrirc.mappings_mut().tell_at(heard.target, message_type, &event.sender, &message)
}

/// An emote that the client is told reads back as an emote: what follows the words that mark
/// it is when it was sent and what it says.
pub proof fn emotes_read_back(
    nick: Seq<char>,
    target: Seq<char>,
    body: Seq<char>,
    server: MediaServerView,
    outcome: Result<(), Seq<char>>,
    time: Option<Seq<char>>,
    now: nat,
)
    ensures
        read_action(
            nick,
            CommandView::PRIVMSG(
                target,
                MessageContentView::Emote(body).told(server, outcome, time),
            ),
            now,
        ) == (ReadActionView::Forward {
            target,
            message_type: MatrixMessageType::Emote,
            text: time_prefix(time) + body,
        }),
{
    let mark = "\u{001}ACTION "@;
    let told = MessageContentView::Emote(body).told(server, outcome, time);
    assert(told.subrange(0, mark.len() as int) =~= mark);
    assert(told.skip(mark.len() as int) =~= time_prefix(time) + body);
}

/// The file that a message is about, if it is about one.
pub open spec fn file_of(content: MessageContentView) -> Option<MediaView> {
    match content {
        MessageContentView::File(media) => Some(media),
        MessageContentView::Image(media) => Some(media),
        MessageContentView::Video(media) => Some(media),
        MessageContentView::Audio(media) => Some(media),
        _ => None,
    }
}

/// Whether a text ends in another.
pub open spec fn ends_in(text: Seq<char>, end: Seq<char>) -> bool {
    end.len() <= text.len() && text.skip(text.len() - end.len()) == end
}

/// Whether `name` is what stands behind the last slash of `whole`, or all of it where there is
/// none.
pub open spec fn is_base_name(whole: Seq<char>, name: Seq<char>) -> bool {
    &&& name.len() <= whole.len()
    &&& name == whole.skip(whole.len() - name.len())
    &&& forall|i: int| 0 <= i < name.len() ==> #[trigger] name[i] != '/'
    &&& name.len() < whole.len() ==> whole[whole.len() - name.len() - 1] == '/'
}

/// For every kind of message about a file: an encrypted file is stored before the client is
/// told, where there is a media directory, under the name behind the last slash of the one it
/// has; the link that the client is then told is the media url, or else the directory, with a
/// slash and just that name, percent-encoded. What could not be stored is told by the reason.
/// Without a media directory nothing is stored, and the client is told so; and a file that is
/// not encrypted is never stored.
pub proof fn links_lead_to_what_was_stored(
    content: MessageContentView,
    server: MediaServerView,
    time: Option<Seq<char>>,
    e: Seq<char>,
)
    requires
        file_of(content) is Some,
    ensures
        ({
            let media = file_of(content)->0;
            let told = |outcome: Result<(), Seq<char>>| content.told(server, outcome, time);
            let ends = |text: Seq<char>, link: Seq<char>| ends_in(text, seq![':', ' '] + link);
            match (media.source, server.media_dir) {
                (MediaSourceView::Encrypted, Some(dir)) => {
                    let base = match server.media_url {
                        Some(url) => url,
                        None => dir,
                    };
                    &&& content.errand(server) matches ErrandView::Store(name) && {
                        &&& is_base_name(media.filename, name)
                        &&& ends(told(Ok(())), base + seq!['/'] + percent_encoded(name))
                    }
                    &&& ends(told(Err(e)), e)
                },
                (MediaSourceView::Encrypted, None) => {
                    &&& content.errand(server) is Nothing
                    &&& ends(told(Ok(())), "<encrypted, no media dir set>"@)
                    &&& ends(told(Err(e)), "<encrypted, no media dir set>"@)
                },
                (MediaSourceView::Plain(uri), _) => {
                    &&& content.errand(server) is Nothing
                    &&& ends(told(Ok(())), download_uri(uri, server.homeserver))
                    &&& ends(told(Err(e)), download_uri(uri, server.homeserver))
                },
            }
        }),
{
    let media = file_of(content)->0;
    reveal_strlit(": ");
    reveal_strlit("/");
    assert(": "@ =~= seq![':', ' ']);
    assert("/"@ =~= seq!['/']);
    let name = after_last(media.filename, '/');
    after_last_is_the_end(media.filename, '/');
    assert forall|i: int| 0 <= i < name.len() implies #[trigger] name[i] != '/' by {
        assert(name.contains(name[i]));
    }
    lemma_link_ends(content, server, Ok(()), time);
    lemma_link_ends(content, server, Err(e), time);
}

/// What the client is told of a file ends in the link, or in why there is none.
proof fn lemma_link_ends(
    content: MessageContentView,
    server: MediaServerView,
    outcome: Result<(), Seq<char>>,
    time: Option<Seq<char>>,
)
    requires
        file_of(content) is Some,
    ensures
        ends_in(
            content.told(server, outcome, time),
            ": "@ + file_of(content)->0.link(server, outcome),
        ),
{
    let media = file_of(content)->0;
    let link = media.link(server, outcome);
    let at = time_prefix(time);
    let head = match content {
        MessageContentView::File(_) => at + "Sent a file, "@ + media.body,
        MessageContentView::Image(_) => at + "Sent an image, "@ + media.body,
        MessageContentView::Video(_) => at + "Sent a video, "@ + media.body,
        _ => at + "Sent audio, "@ + media.body,
    };
    let told = content.told(server, outcome, time);
    let end = ": "@ + link;
    assert(told =~= head + end);
    assert(told.skip(told.len() - end.len()) =~= end);
}

/// A link to a file that is not encrypted is its `mxc` address with the server's download path
/// in place of the scheme, whether or not the server's address ends in slashes.
pub proof fn files_are_downloaded_from_the_server(homeserver: Seq<char>, rest: Seq<char>)
    requires
        forall|i: int|
            0 <= i < rest.len() ==> !"mxc://"@.is_prefix_of(#[trigger] rest.skip(i)),
    ensures
        ({
            let base = trimmed_end(homeserver, '/');
            download_uri("mxc://"@ + rest, homeserver) == base + "/_matrix/media/r0/download/"@ + rest
        }),
        download_uri(rest, homeserver) == rest,
{
    let to = trimmed_end(homeserver, '/') + "/_matrix/media/r0/download/"@;
    let from = "mxc://"@;
    reveal_strlit("mxc://");
    occurrences_are_replaced(Seq::empty(), rest, from, to);
    occurrences_are_replaced(rest, Seq::empty(), from, to);
    assert(Seq::<char>::empty() + from + rest =~= from + rest);
    assert(Seq::<char>::empty() + to + rest =~= to + rest);
}

/// The client is told when a message was, if anything is said of that, and what it says: a text
/// or a notice as it is, an emote with the mark of an emote before all of it, a file by its kind,
/// its name and the link, a request for verification by how that came out, and anything else by
/// its type and its text. Texts, emotes and what is none of these are told as `PRIVMSG`, and
/// everything else as `NOTICE`.
pub proof fn messages_are_told_by_kind(
    content: MessageContentView,
    server: MediaServerView,
    outcome: Result<(), Seq<char>>,
    time: Option<Seq<char>>,
)
    ensures
        ({
            let at = match time {
                Some(d) => seq!['<'] + d + seq!['>', ' '],
                None => Seq::empty(),
            };
            let told = content.told(server, outcome, time);
            match content {
                MessageContentView::Text(body) => told == at + body,
                MessageContentView::Notice(body) => told == at + body,
                MessageContentView::ServerNotice(body) => told == at + body,
                MessageContentView::Emote(body) => told == "\u{001}ACTION "@ + at + body,
                MessageContentView::File(m) => told == at + "Sent a file, "@ + m.body + ": "@ + m.link(
                    server,
                    outcome,
                ),
                MessageContentView::Image(m) => told == at + "Sent an image, "@ + m.body + ": "@
                    + m.link(server, outcome),
                MessageContentView::Video(m) => told == at + "Sent a video, "@ + m.body + ": "@
                    + m.link(server, outcome),
                MessageContentView::Audio(m) => told == at + "Sent audio, "@ + m.body + ": "@ + m.link(
                    server,
                    outcome,
                ),
                MessageContentView::VerificationRequest => told == at + match outcome {
                    Ok(()) => "Sent a verification request"@,
                    Err(e) => "Sent a verification request, but failed: "@ + e,
                },
                MessageContentView::Other { msgtype, has_data, body } => told == at + "Sent "@ + msgtype
                    + (if has_data {
                    " (has data)"@
                } else {
                    Seq::empty()
                }) + ": "@ + body,
            }
        }),
        content.told_as() == if content is Text || content is Emote || content is Other {
            IrcMessageType::Privmsg
        } else {
            IrcMessageType::Notice
        },
        content.errand(server) is Verify <==> content is VerificationRequest,
        content.errand(server) is Store ==> file_of(content) is Some,
{
    reveal_strlit("<");
    reveal_strlit("> ");
    reveal_strlit("");
    assert("<"@ =~= seq!['<']);
    assert("> "@ =~= seq!['>', ' ']);
    assert(""@ =~= Seq::empty());
    let at = time_prefix(time);
    let told = content.told(server, outcome, time);
    if let MessageContentView::VerificationRequest = content {
        if let Err(e) = outcome {
            assert(told =~= at + ("Sent a verification request, but failed: "@ + e));
        }
    }
}

/// Telling a text changes who waits where, and remembering it what is known of its event;
/// neither changes the rest of the session.
pub proof fn events_touch_only_their_part<H>(
    v: MatrircView<H>,
    at: EventRoomView<H>,
    t: TargetRefView,
    kind: IrcMessageType,
    sender: Seq<char>,
    text: Seq<char>,
    id: Seq<char>,
)
    ensures
        v.remembering(id, text) == (MatrircView { messages: v.messages.insert(id, text), ..v }),
        v.after_event(at, kind, sender, text) == (MatrircView {
            mappings: v.mappings.after_event(at, kind, sender, text),
            ..v
        }),
        v.after_text_at(t, kind, sender, text) == (MatrircView {
            mappings: v.mappings.after_text_at(t, kind, sender, text),
            ..v
        }),
        v.taken_up(at) == (MatrircView {
            mappings: v.mappings.resolved(at.room, at.members, at.handler),
            ..v
        }),
{
}

/// A message in a room is told there, in the words and the kind for it, from who sent it, and
/// what was told is what is remembered of it; what is remembered of other events stays.
pub proof fn told_messages_are_remembered<H>(
    before: Matrirc<H>,
    event: RoomMessageEvent,
    at: EventRoomView<H>,
    text: Seq<char>,
    after: Matrirc<H>,
    told: Told,
    other: Seq<char>,
)
    requires
        on_message_told(before, event, at, text, after, told),
    ensures
        after@.told(event.event_id@) == Some(text),
        other != event.event_id@ ==> after@.told(other) == before@.told(other),
        after@.running == before@.running,
        after@.mappings == before@.mappings.after_event(
            at,
            event.content@.told_as(),
            event.sender@,
            text,
        ),
        before@.mappings.tells(at, event.content@.told_as(), event.sender@, text, told),
{
}

/// The messages about a file are those with a file, an image, a video or audio, each about its
/// own.
pub proof fn messages_about_files(content: MessageContentView, media: MediaView)
    ensures
        file_of(content) == Some(media) <==> {
            ||| content == MessageContentView::File(media)
            ||| content == MessageContentView::Image(media)
            ||| content == MessageContentView::Video(media)
            ||| content == MessageContentView::Audio(media)
        },
{
}

} // verus!
