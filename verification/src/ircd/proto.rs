//! IRC messages: what the bridge writes to its client and how it reacts to what it reads.

use vstd::prelude::*;
use vstd::string::*;
use vstd::utf8::*;

use crate::matrix::room_mappings::MatrixMessageType;
use crate::text::{
    cat2, cat3, cat4, cat5, chars_of, decimal, decimal_of, joined, lemma_unsplit, split, split_on,
    split_then_join, strip_prefix, texts, without_prefix,
};

verus! {

/// Where a message comes from.
#[derive(Debug)]
pub enum Prefix {
    /// A server name.
    ServerName(String),
    /// Nick, user and host.
    Nickname(String, String, String),
}

/// One mode of a `MODE` command, as far as the bridge tells modes apart.
#[derive(Debug, Clone, Copy, PartialEq, Eq, Structural)]
pub enum Mode {
    /// The ban mode, with neither a plus nor a minus.
    Ban,
    /// Any other mode.
    Other,
}

/// The IRC commands that the bridge reads or writes.
#[derive(Debug)]
pub enum Command {
    NICK(String),
    PASS(String),
    /// The user name.
    USER(String),
    PING(String, Option<String>),
    PONG(String, Option<String>),
    /// A capability command with its code, where there is one.
    CAP(Option<String>),
    JOIN(String),
    PART(String),
    PRIVMSG(String, String),
    NOTICE(String, String),
    QUIT(Option<String>),
    ChannelMODE(String, Vec<Mode>),
    WHO(Option<String>),
    ERROR(String),
    /// A line that is sent as it is.
    Raw(String),
    /// Any other command.
    Other,
}

/// A message to or from the client.
#[derive(Debug)]
pub struct Message {
    pub prefix: Option<Prefix>,
    pub command: Command,
}

/// What a [`Prefix`] holds.
pub enum PrefixView {
    ServerName(Seq<char>),
    Nickname(Seq<char>, Seq<char>, Seq<char>),
}

/// What a [`Command`] holds.
pub enum CommandView {
    NICK(Seq<char>),
    PASS(Seq<char>),
    USER(Seq<char>),
    PING(Seq<char>, Option<Seq<char>>),
    PONG(Seq<char>, Option<Seq<char>>),
    CAP(Option<Seq<char>>),
    JOIN(Seq<char>),
    PART(Seq<char>),
    PRIVMSG(Seq<char>, Seq<char>),
    NOTICE(Seq<char>, Seq<char>),
    QUIT(Option<Seq<char>>),
    ChannelMODE(Seq<char>, Seq<Mode>),
    WHO(Option<Seq<char>>),
    ERROR(Seq<char>),
    Raw(Seq<char>),
    Other,
}

/// What a [`Message`] holds.
pub struct MessageView {
    pub prefix: Option<PrefixView>,
    pub command: CommandView,
}

/// What an optional text holds.
pub open spec fn opt_text(s: Option<String>) -> Option<Seq<char>> {
    match s {
        Some(t) => Some(t@),
        None => None,
    }
}

impl View for Prefix {
    type V = PrefixView;

    open spec fn view(&self) -> PrefixView {
        match *self {
            Prefix::ServerName(s) => PrefixView::ServerName(s@),
            Prefix::Nickname(n, u, h) => PrefixView::Nickname(n@, u@, h@),
        }
    }
}

impl View for Command {
    type V = CommandView;

    open spec fn view(&self) -> CommandView {
        match *self {
            Command::NICK(s) => CommandView::NICK(s@),
            Command::PASS(s) => CommandView::PASS(s@),
            Command::USER(s) => CommandView::USER(s@),
            Command::PING(s, t) => CommandView::PING(s@, opt_text(t)),
            Command::PONG(s, t) => CommandView::PONG(s@, opt_text(t)),
            Command::CAP(s) => CommandView::CAP(opt_text(s)),
            Command::JOIN(s) => CommandView::JOIN(s@),
            Command::PART(s) => CommandView::PART(s@),
            Command::PRIVMSG(s, t) => CommandView::PRIVMSG(s@, t@),
            Command::NOTICE(s, t) => CommandView::NOTICE(s@, t@),
            Command::QUIT(s) => CommandView::QUIT(opt_text(s)),
            Command::ChannelMODE(s, m) => CommandView::ChannelMODE(s@, m@),
            Command::WHO(s) => CommandView::WHO(opt_text(s)),
            Command::ERROR(s) => CommandView::ERROR(s@),
            Command::Raw(s) => CommandView::Raw(s@),
            Command::Other => CommandView::Other,
        }
    }
}

impl View for Message {
    type V = MessageView;

    open spec fn view(&self) -> MessageView {
        MessageView {
            prefix: match self.prefix {
                Some(p) => Some(p@),
                None => None,
            },
            command: self.command@,
        }
    }
}

/// The same optional text once more.
pub fn copy_text(s: &Option<String>) -> (r: Option<String>)
    ensures
        opt_text(r) == opt_text(*s),
{
    match s {
        Some(t) => Some(t.clone()),
        None => None,
    }
}

impl Message {
    /// The same message once more.
    pub fn copy(&self) -> (r: Message)
        ensures
            r@ == self@,
    {
        let prefix = match &self.prefix {
            Some(Prefix::ServerName(s)) => Some(Prefix::ServerName(s.clone())),
            Some(Prefix::Nickname(n, u, h)) => Some(
                Prefix::Nickname(n.clone(), u.clone(), h.clone()),
            ),
            None => None,
        };
        let command = match &self.command {
            Command::NICK(s) => Command::NICK(s.clone()),
            Command::PASS(s) => Command::PASS(s.clone()),
            Command::USER(s) => Command::USER(s.clone()),
            Command::PING(s, t) => Command::PING(s.clone(), copy_text(t)),
            Command::PONG(s, t) => Command::PONG(s.clone(), copy_text(t)),
            Command::CAP(s) => Command::CAP(copy_text(s)),
            Command::JOIN(s) => Command::JOIN(s.clone()),
            Command::PART(s) => Command::PART(s.clone()),
            Command::PRIVMSG(s, t) => Command::PRIVMSG(s.clone(), t.clone()),
            Command::NOTICE(s, t) => Command::NOTICE(s.clone(), t.clone()),
            Command::QUIT(s) => Command::QUIT(copy_text(s)),
            Command::ChannelMODE(s, m) => {
                let modes: Vec<Mode> = m.clone();
                assert(modes@ =~= m@);
                Command::ChannelMODE(s.clone(), modes)
            },
            Command::WHO(s) => Command::WHO(copy_text(s)),
            Command::ERROR(s) => Command::ERROR(s.clone()),
            Command::Raw(s) => Command::Raw(s.clone()),
            Command::Other => Command::Other,
        };
        Message { prefix, command }
    }
}

/// What a sequence of messages holds.
pub open spec fn messages(v: Seq<Message>) -> Seq<MessageView> {
    v.map_values(|m: Message| m@)
}

/// How many bytes of a nick its user name takes over.
pub open spec fn user_len(nick: Seq<char>) -> int {
    if encode_utf8(nick).len() < 6 {
        encode_utf8(nick).len() as int
    } else {
        6
    }
}

/// Whether the bytes of a nick that make up its user name end at the end of a character.
pub open spec fn has_user(nick: Seq<char>) -> bool {
    is_char_boundary(encode_utf8(nick), user_len(nick))
}

/// The user name that goes with a nick: its first six bytes, or all of a shorter one.
pub open spec fn user_of(nick: Seq<char>) -> Seq<char> {
    decode_utf8(encode_utf8(nick).subrange(0, user_len(nick)))
}

/// The prefix of a message from a nick.
pub open spec fn prefix_of(nick: Seq<char>) -> PrefixView {
    PrefixView::Nickname(nick, user_of(nick), "matrirc"@)
}

/// A message with a given command, from a nick or from nobody.
pub open spec fn message_from(nick: Option<Seq<char>>, command: CommandView) -> MessageView {
    MessageView {
        prefix: match nick {
            Some(n) => Some(prefix_of(n)),
            None => None,
        },
        command,
    }
}

/// A line that is sent as it is.
pub open spec fn raw_line(line: Seq<char>) -> MessageView {
    message_from(None, CommandView::Raw(line))
}

/// A `PRIVMSG` from a nick.
pub open spec fn privmsg_from(from: Seq<char>, target: Seq<char>, text: Seq<char>) -> MessageView {
    message_from(Some(from), CommandView::PRIVMSG(target, text))
}

/// A `NOTICE` from a nick.
pub open spec fn notice_from(from: Seq<char>, target: Seq<char>, text: Seq<char>) -> MessageView {
    message_from(Some(from), CommandView::NOTICE(target, text))
}

pub proof fn lemma_encode_concat(a: Seq<char>, b: Seq<char>)
    ensures
        encode_utf8(a + b) == encode_utf8(a) + encode_utf8(b),
    decreases a.len(),
{
    if a.len() == 0 {
        assert(a + b =~= b);
        assert(encode_utf8(a) + encode_utf8(b) =~= encode_utf8(b));
    } else {
        lemma_encode_concat(a.drop_first(), b);
        assert((a + b).drop_first() =~= a.drop_first() + b);
        assert(encode_utf8(a + b) =~= encode_utf8(a) + encode_utf8(b));
    }
}

/// A nick in ASCII has a user name: its first six characters.
pub proof fn ascii_nick_has_user(nick: Seq<char>)
    requires
        is_ascii_chars(nick),
    ensures
        has_user(nick),
        user_of(nick) == nick.take(if nick.len() < 6 {
            nick.len() as int
        } else {
            6
        }),
{
    let bytes = encode_utf8(nick);
    let k = user_len(nick);
    is_ascii_chars_encode_utf8(nick);
    encode_utf8_valid_utf8(nick);
    if k == bytes.len() {
        is_char_boundary_start_end_of_seq(bytes);
    } else {
        is_char_boundary_iff_not_is_continuation_byte(bytes, k);
        assert(nick[k] as u8 == bytes[k]);
    }
    let head = nick.take(k);
    assert(nick =~= head + nick.skip(k));
    lemma_encode_concat(head, nick.skip(k));
    is_ascii_chars_encode_utf8(head);
    assert(bytes.subrange(0, k) =~= encode_utf8(head));
    encode_utf8_decode_utf8(head);
}

/// An ASCII ending leaves a nick with a user name.
pub proof fn lemma_has_user_extend(nick: Seq<char>, ending: Seq<char>)
    requires
        has_user(nick),
        is_ascii_chars(ending),
    ensures
        has_user(nick + ending),
{
    let a = encode_utf8(nick);
    let b = encode_utf8(ending);
    let bytes = encode_utf8(nick + ending);
    lemma_encode_concat(nick, ending);
    encode_utf8_valid_utf8(nick);
    encode_utf8_valid_utf8(nick + ending);
    is_ascii_chars_encode_utf8(ending);
    let k = user_len(nick + ending);
    if k == bytes.len() {
        is_char_boundary_start_end_of_seq(bytes);
    } else if k < a.len() {
        is_char_boundary_iff_not_is_continuation_byte(a, k);
        is_char_boundary_iff_not_is_continuation_byte(bytes, k);
    } else {
        is_char_boundary_iff_not_is_continuation_byte(bytes, k);
        assert(bytes[k] == b[k - a.len()]);
        assert(ending[k - a.len()] as u8 == b[k - a.len()]);
    }
}

/// How many bytes of a nick its user name takes over.
fn user_length(nick: &str) -> (r: usize)
    ensures
        r == user_len(nick@),
{
    let n: usize = nick.as_bytes().len();
    if n < 6 {
        n
    } else {
        6
    }
}

/// Whether a nick has a user name: messages can come from such a nick only.
pub fn nick_has_user(nick: &str) -> (r: bool)
    ensures
        r == has_user(nick@),
{
    nick.is_char_boundary(user_length(nick))
}

fn user_name(nick: &str) -> (r: String)
    requires
        has_user(nick@),
    ensures
        r@ == user_of(nick@),
{
    let (user, _) = nick.split_at(user_length(nick));
    proof {
        encode_utf8_decode_utf8(user@);
    }
    user.to_owned()
}

fn message_of(prefix: &str, command: Command) -> (r: Message)
    requires
        has_user(prefix@),
    ensures
        r@ == message_from(Some(prefix@), command@),
{
    Message {
        prefix: Some(
            Prefix::Nickname(prefix.to_owned(), user_name(prefix), "matrirc".to_owned()),
        ),
        command,
    }
}

fn message_of_noprefix(command: Command) -> (r: Message)
    ensures
        r@ == message_from(None, command@),
{
    Message { prefix: None, command }
}

fn message_of_option(prefix: Option<&str>, command: Command) -> (r: Message)
    requires
        prefix matches Some(p) ==> has_user(p@),
    ensures
        r@ == message_from(
            match prefix {
                Some(p) => Some(p@),
                None => None,
            },
            command@,
        ),
{
    match prefix {
        None => message_of_noprefix(command),
        Some(p) => message_of(p, command),
    }
}

/// A line to the client as it is, without any formatting.
pub fn raw_msg(msg: &str) -> (r: Message)
    ensures
        r@ == raw_line(msg@),
{
    message_of_noprefix(Command::Raw(msg.to_owned()))
}

/// A `JOIN` of a channel, by a nick or by the client itself.
pub fn join(who: Option<&str>, chan: &str) -> (r: Message)
    requires
        who matches Some(w) ==> has_user(w@),
    ensures
        r@ == message_from(
            match who {
                Some(w) => Some(w@),
                None => None,
            },
            CommandView::JOIN(chan@),
        ),
{
    message_of_option(who, Command::JOIN(chan.to_owned()))
}

/// A `PART` of a channel, by a nick or by the client itself.
pub fn part(who: Option<&str>, chan: &str) -> (r: Message)
    requires
        who matches Some(w) ==> has_user(w@),
    ensures
        r@ == message_from(
            match who {
                Some(w) => Some(w@),
                None => None,
            },
            CommandView::PART(chan@),
        ),
{
    message_of_option(who, Command::PART(chan.to_owned()))
}

/// The answer to a `PING`.
pub fn pong(server: String, server2: Option<String>) -> (r: Message)
    ensures
        r@ == message_from(None, CommandView::PONG(server@, opt_text(server2))),
{
    message_of_noprefix(Command::PONG(server, server2))
}

/// A `PRIVMSG` to `target`, coming as `from`, with the given content.
/// The target is the user's nick for private messages, or a channel name.
pub fn privmsg(from: &str, target: &str, msg: &str) -> (r: Message)
    requires
        has_user(from@),
    ensures
        r@ == privmsg_from(from@, target@, msg@),
{
    message_of(from, Command::PRIVMSG(target.to_owned(), msg.to_owned()))
}

/// A `NOTICE` to `target`, coming as `from`, with the given content.
pub fn notice(from: &str, target: &str, msg: &str) -> (r: Message)
    requires
        has_user(from@),
    ensures
        r@ == notice_from(from@, target@, msg@),
{
    message_of(from, Command::NOTICE(target.to_owned(), msg.to_owned()))
}

/// The `ERROR` that ends a session.
pub fn error(reason: &str) -> (r: Message)
    ensures
        r@ == message_from(None, CommandView::ERROR(reason@)),
{
    message_of_noprefix(Command::ERROR(reason.to_owned()))
}

/// Whether a text goes out as `PRIVMSG` or as `NOTICE`.
#[derive(Debug, Clone, Copy, PartialEq, Eq, Structural)]
pub enum IrcMessageType {
    Privmsg,
    Notice,
}

/// A text for the client, which may have several lines.
#[derive(Debug, Clone)]
pub struct IrcMessage {
    pub message_type: IrcMessageType,
    /// source to use for privmsg/similar
    /// (member name for chan, query name for query)
    pub from: String,
    /// target to use for privmsg/similar
    /// (channel name for chan, own nick for query)
    pub target: String,
    /// message content
    pub text: String,
}

/// What an [`IrcMessage`] holds.
pub struct IrcMessageView {
    pub message_type: IrcMessageType,
    pub from: Seq<char>,
    pub target: Seq<char>,
    pub text: Seq<char>,
}

impl View for IrcMessage {
    type V = IrcMessageView;

    open spec fn view(&self) -> IrcMessageView {
        IrcMessageView {
            message_type: self.message_type,
            from: self.from@,
            target: self.target@,
            text: self.text@,
        }
    }
}

impl IrcMessageView {
    /// The message that carries one line of the text.
    pub open spec fn line(self, line: Seq<char>) -> MessageView {
        match self.message_type {
            IrcMessageType::Privmsg => privmsg_from(self.from, self.target, line),
            IrcMessageType::Notice => notice_from(self.from, self.target, line),
        }
    }

    /// The messages that carry the text, one for each of its lines.
    pub open spec fn lines(self) -> Seq<MessageView> {
        split_on(self.text, '\n').map_values(|l: Seq<char>| self.line(l))
    }
}

impl IrcMessage {
    /// One message for each line of the text, in order.
    pub fn into_iter(self) -> (r: Vec<Message>)
        requires
            has_user(self.from@),
        ensures
            messages(r@) == self@.lines(),
    {
        let lines = split(&self.text, '\n');
        let mut r: Vec<Message> = Vec::new();
        let mut i: usize = 0;
        while i < lines.len()
            invariant
                has_user(self.from@),
                texts(lines@) == split_on(self.text@, '\n'),
                i <= lines@.len(),
                r@.len() == i,
                forall|j: int| 0 <= j < i ==> (#[trigger] r@[j])@ == self@.line(lines@[j]@),
            decreases lines@.len() - i,
        {
            let message = match self.message_type {
                IrcMessageType::Privmsg => privmsg(&self.from, &self.target, &lines[i]),
                IrcMessageType::Notice => notice(&self.from, &self.target, &lines[i]),
            };
            r.push(message);
            i = i + 1;
        }
        assert(messages(r@) =~= self@.lines()) by {
            assert forall|j: int| 0 <= j < r@.len() implies #[trigger] messages(r@)[j] == self@.lines()[j] by {
                assert(texts(lines@)[j] == lines@[j]@);
            }
        }
        r
    }
}

/// A text goes out whole, cut at its line ends: each message carries one line, without a line
/// end in it, and the lines with line ends between them are the text.
pub proof fn texts_are_cut_at_line_ends(m: IrcMessageView)
    ensures
        ({
            let lines = split_on(m.text, '\n');
            &&& m.lines().len() == lines.len()
            &&& forall|i: int| 0 <= i < lines.len() ==> #[trigger] m.lines()[i] == m.line(lines[i])
            &&& forall|i: int| 0 <= i < lines.len() ==> !(#[trigger] lines[i]).contains('\n')
            &&& joined(lines, seq!['\n']) == m.text
        }),
{
    split_then_join(m.text, '\n');
}

impl MessageView {
    /// To whom an answer to the message goes: to the channel it was said in, or else to the
    /// nick it came from.
    pub open spec fn answered_to(self) -> Option<Seq<char>> {
        match self.command {
            CommandView::PRIVMSG(target, _) if is_channel_name(target) => Some(target),
            CommandView::NOTICE(target, _) if is_channel_name(target) => Some(target),
            _ => match self.prefix {
                Some(PrefixView::Nickname(nick, _, _)) => Some(nick),
                _ => None,
            },
        }
    }
}

/// Whether a name is a channel's, by its first character.
pub open spec fn is_channel_name(name: Seq<char>) -> bool {
    name.len() > 0 && (name[0] == '#' || name[0] == '&' || name[0] == '+' || name[0] == '!')
}

fn names_channel(name: &str) -> (r: bool)
    ensures
        r == is_channel_name(name@),
{
    let chars = chars_of(name);
    chars.len() > 0 && (chars[0] == '#' || chars[0] == '&' || chars[0] == '+' || chars[0] == '!')
}

impl Message {
    /// To whom an answer to the message goes.
    pub fn response_target(&self) -> (r: Option<String>)
        ensures
            opt_text(r) == self@.answered_to(),
    {
        match &self.command {
            Command::PRIVMSG(target, _) if names_channel(target) => {
                return Some(target.clone());
            },
            Command::NOTICE(target, _) if names_channel(target) => {
                return Some(target.clone());
            },
            _ => {},
        }
        match &self.prefix {
            Some(Prefix::Nickname(nick, _, _)) => Some(nick.clone()),
            _ => None,
        }
    }
}

/// Whether writing goes on.
#[derive(Debug)]
pub enum Writing {
    GoesOn,
    /// The connection is closed, and writing is over.
    Close,
    /// It ended with an error.
    Failed(String),
}

/// What a [`Writing`] holds.
pub enum WritingView {
    GoesOn,
    Close,
    Failed(Seq<char>),
}

impl View for Writing {
    type V = WritingView;

    open spec fn view(&self) -> WritingView {
        match *self {
            Writing::GoesOn => WritingView::GoesOn,
            Writing::Close => WritingView::Close,
            Writing::Failed(e) => WritingView::Failed(e@),
        }
    }
}

/// Whether writing goes on after a message was sent to the client: not after an `ERROR`, and not
/// where it could not be sent, for the reason `failure`.
pub open spec fn writing_after(command: CommandView, failure: Option<Seq<char>>) -> WritingView {
    match failure {
        Some(e) => WritingView::Failed(e),
        None => if command is ERROR {
            WritingView::Close
        } else {
            WritingView::GoesOn
        },
    }
}

/// Whether writing goes on after a message was sent to the client, or could not be.
pub fn ircd_sync_write(message: &Message, failure: Option<String>) -> (r: Writing)
    ensures
        r@ == writing_after(message@.command, opt_text(failure)),
{
    match failure {
        Some(e) => Writing::Failed(e),
        None => match &message.command {
            Command::ERROR(_) => Writing::Close,
            _ => Writing::GoesOn,
        },
    }
}

/// A message for the client, and why it could not be sent, if it could not.
pub struct WriteInput {
    pub message: MessageView,
    pub failure: Option<Seq<char>>,
}

/// A run of writing: what was sent, in order, whether the connection was closed then, and the
/// error that it ended with, if it did.
#[verifier::ext_equal]
pub struct WriteRun {
    pub sent: Seq<MessageView>,
    pub closed: bool,
    pub error: Option<Seq<char>>,
}

/// All that is sent of a run of messages, up to where writing ends.
pub open spec fn write_run(inputs: Seq<WriteInput>) -> WriteRun
    decreases inputs.len(),
{
    if inputs.len() == 0 {
        WriteRun { sent: Seq::empty(), closed: false, error: None }
    } else {
        let m = inputs[0].message;
        match writing_after(m.command, inputs[0].failure) {
            WritingView::Close => WriteRun { sent: seq![m], closed: true, error: None },
            WritingView::Failed(e) => WriteRun {
                sent: Seq::empty(),
                closed: false,
                error: Some(e),
            },
            WritingView::GoesOn => {
                let rest = write_run(inputs.drop_first());
                WriteRun { sent: seq![m] + rest.sent, ..rest }
            },
        }
    }
}

/// Whether writing goes on behind a message: it was no `ERROR`, and could be sent.
pub open spec fn written(i: WriteInput) -> bool {
    !(i.message.command is ERROR) && i.failure is None
}

/// Messages are sent in order, all up to and with the first `ERROR`, behind which the connection
/// is closed and nothing more is sent. A message that cannot be sent before that ends the writing
/// with its error, and the connection is not closed.
pub proof fn writing_ends_at_error(inputs: Seq<WriteInput>, n: int)
    requires
        0 <= n <= inputs.len(),
        forall|i: int| 0 <= i < n ==> written(#[trigger] inputs[i]),
        n < inputs.len() ==> !written(inputs[n]),
    ensures
        ({
            let run = write_run(inputs);
            let ends = n < inputs.len();
            &&& run == write_run(inputs.take(if ends {
                n + 1
            } else {
                n
            }))
            &&& run.sent.len() == if ends && inputs[n].failure is None {
                n + 1
            } else {
                n
            }
            &&& forall|i: int|
                0 <= i < run.sent.len() ==> #[trigger] run.sent[i] == inputs[i].message
            &&& run.closed == (ends && inputs[n].failure is None)
            &&& run.closed ==> run.sent.last().command is ERROR
            &&& run.error == if ends {
                inputs[n].failure
            } else {
                None
            }
        }),
    decreases inputs.len(),
{
    if inputs.len() == 0 {
        assert(inputs.take(0) =~= inputs);
    } else {
        let run = write_run(inputs);
        let m = if n < inputs.len() {
            n + 1
        } else {
            n
        };
        assert(inputs.take(m)[0] == inputs[0]);
        if n > 0 {
            let rest = inputs.drop_first();
            assert(written(inputs[0]));
            assert forall|i: int| 0 <= i < n - 1 implies written(#[trigger] rest[i]) by {
                assert(written(inputs[i + 1]));
            }
            writing_ends_at_error(rest, n - 1);
            assert(inputs.take(m).drop_first() =~= rest.take(m - 1));
            assert forall|i: int| 0 <= i < run.sent.len() implies #[trigger] run.sent[i]
                == inputs[i].message by {
                if i > 0 {
                    assert(run.sent[i] == write_run(rest).sent[i - 1]);
                    assert(rest[i - 1] == inputs[i]);
                }
            }
        }
    }
}

/// What is done with a message from the client.
#[derive(Debug)]
pub enum ReadAction {
    /// This is sent; where that fails, reading ends.
    Answer(Message),
    /// A text goes to Matrix; where that fails, the client is told.
    Forward { target: String, message_type: MatrixMessageType, text: String },
    /// This is sent; where that fails, reading goes on.
    Reply(Message),
    /// Reading ends.
    Quit,
    Ignore,
}

/// What a [`ReadAction`] holds.
pub enum ReadActionView {
    Answer(MessageView),
    Forward { target: Seq<char>, message_type: MatrixMessageType, text: Seq<char> },
    Reply(MessageView),
    Quit,
    Ignore,
}

impl View for ReadAction {
    type V = ReadActionView;

    open spec fn view(&self) -> ReadActionView {
        match *self {
            ReadAction::Answer(m) => ReadActionView::Answer(m@),
            ReadAction::Forward { target, message_type, text } => ReadActionView::Forward {
                target: target@,
                message_type,
                text: text@,
            },
            ReadAction::Reply(m) => ReadActionView::Reply(m@),
            ReadAction::Quit => ReadActionView::Quit,
            ReadAction::Ignore => ReadActionView::Ignore,
        }
    }
}

/// What is done with a message from the client `nick`, at second `now`.
pub open spec fn read_action(nick: Seq<char>, command: CommandView, now: nat) -> ReadActionView {
    match command {
        CommandView::PING(server, server2) => ReadActionView::Answer(
            message_from(None, CommandView::PONG(server, server2)),
        ),
        CommandView::PRIVMSG(target, msg) => match without_prefix(msg, "\u{001}ACTION "@) {
            Some(emote) => ReadActionView::Forward {
                target,
                message_type: MatrixMessageType::Emote,
                text: emote,
            },
            None => ReadActionView::Forward {
                target,
                message_type: MatrixMessageType::Text,
                text: msg,
            },
        },
        CommandView::NOTICE(target, msg) => ReadActionView::Forward {
            target,
            message_type: MatrixMessageType::Notice,
            text: msg,
        },
        CommandView::QUIT(_) => ReadActionView::Quit,
        CommandView::ChannelMODE(chan, modes) => if modes.len() == 0 {
            ReadActionView::Reply(
                raw_line(":matrirc 329 "@ + nick + " "@ + chan + " "@ + decimal(now)),
            )
        } else if modes.contains(Mode::Ban) {
            ReadActionView::Reply(raw_line(":matrirc 368 "@ + nick + " "@ + chan + " :End"@))
        } else {
            ReadActionView::Ignore
        },
        CommandView::WHO(Some(chan)) => ReadActionView::Reply(
            raw_line(":matrirc 315 "@ + nick + " "@ + chan + " :End"@),
        ),
        _ => ReadActionView::Ignore,
    }
}

fn has_ban(modes: &Vec<Mode>) -> (r: bool)
    ensures
        r == modes@.contains(Mode::Ban),
{
    let mut i: usize = 0;
    while i < modes.len()
        invariant
            i <= modes@.len(),
            forall|j: int| 0 <= j < i ==> modes@[j] != Mode::Ban,
        decreases modes@.len() - i,
    {
        if modes[i] == Mode::Ban {
            return true;
        }
        i = i + 1;
    }
    false
}

/// What is done with a message from the client, at second `now`.
pub fn ircd_sync_read(nick: &str, message: &Message, now: u64) -> (r: ReadAction)
    ensures
        r@ == read_action(nick@, message@.command, now as nat),
{
    match &message.command {
        Command::PING(server, server2) => {
            ReadAction::Answer(pong(server.clone(), copy_text(server2)))
        },
        Command::PRIVMSG(target, msg) => match strip_prefix(msg, "\u{001}ACTION ") {
            Some(emote) => ReadAction::Forward {
                target: target.clone(),
                message_type: MatrixMessageType::Emote,
                text: emote,
            },
            None => ReadAction::Forward {
                target: target.clone(),
                message_type: MatrixMessageType::Text,
                text: msg.clone(),
            },
        },
        Command::NOTICE(target, msg) => ReadAction::Forward {
            target: target.clone(),
            message_type: MatrixMessageType::Notice,
            text: msg.clone(),
        },
        Command::QUIT(_) => ReadAction::Quit,
        Command::ChannelMODE(chan, modes) => {
            if modes.len() == 0 {
                // normally chan creation timestamp
                let secs = decimal_of(now as u128);
                let line = cat4(":matrirc 329 ", nick, " ", chan);
                ReadAction::Reply(raw_msg(&cat3(&line, " ", &secs)))
            } else if has_ban(modes) {
                ReadAction::Reply(raw_msg(&cat5(":matrirc 368 ", nick, " ", chan, " :End")))
            } else {
                ReadAction::Ignore
            }
        },
        Command::WHO(Some(chan)) => ReadAction::Reply(
            raw_msg(&cat5(":matrirc 315 ", nick, " ", chan, " :End")),
        ),
        _ => ReadAction::Ignore,
    }
}

/// What came from the client, as it was read.
pub open spec fn input_view(input: Result<Message, String>) -> Option<CommandView> {
    match input {
        Ok(m) => Some(m@.command),
        Err(_) => None,
    }
}

/// What is done with what came from the client: what cannot be read is ignored.
pub open spec fn input_action(nick: Seq<char>, input: Option<CommandView>, now: nat) -> ReadActionView {
    match input {
        Some(command) => read_action(nick, command, now),
        None => ReadActionView::Ignore,
    }
}

/// What is done with what came from the client, at second `now`: what cannot be read is
/// ignored.
pub fn read_input(nick: &str, input: &Result<Message, String>, now: u64) -> (r: ReadAction)
    ensures
        r@ == input_action(nick@, input_view(*input), now as nat),
{
    match input {
        Ok(message) => ircd_sync_read(nick, message, now),
        Err(_) => ReadAction::Ignore,
    }
}

/// Whether reading goes on.
#[derive(Debug)]
pub enum Reading {
    GoesOn,
    /// It is over.
    Over,
    /// It ended with an error.
    Failed(String),
}

/// What a [`Reading`] holds.
pub enum ReadingView {
    GoesOn,
    Over,
    Failed(Seq<char>),
}

impl View for Reading {
    type V = ReadingView;

    open spec fn view(&self) -> ReadingView {
        match *self {
            Reading::GoesOn => ReadingView::GoesOn,
            Reading::Over => ReadingView::Over,
            Reading::Failed(e) => ReadingView::Failed(e@),
        }
    }
}

/// Whether reading goes on after something was done. `failure` is why that did not work, if it
/// did not.
pub open spec fn reading_after(action: ReadActionView, failure: Option<Seq<char>>) -> ReadingView {
    match (action, failure) {
        (ReadActionView::Quit, _) => ReadingView::Over,
        (ReadActionView::Answer(_), Some(e)) => ReadingView::Failed(e),
        _ => ReadingView::GoesOn,
    }
}

/// Whether reading goes on after something was done, which worked or did not.
pub fn after_action(action: &ReadAction, failure: Option<String>) -> (r: Reading)
    ensures
        r@ == reading_after(action@, opt_text(failure)),
{
    match action {
        ReadAction::Quit => Reading::Over,
        ReadAction::Answer(_) => match failure {
            Some(e) => Reading::Failed(e),
            None => Reading::GoesOn,
        },
        _ => Reading::GoesOn,
    }
}

/// Something that came from the client, when it came, and why what was done with it did not
/// work, if it did not.
pub struct ReadInput {
    pub input: Option<CommandView>,
    pub now: nat,
    pub failure: Option<Seq<char>>,
}

/// A run of reading: what was done, in order, and the error that it ended with, if it did.
#[verifier::ext_equal]
pub struct ReadRun {
    pub done: Seq<ReadActionView>,
    pub error: Option<Seq<char>>,
}

/// All that is done with a run of inputs, up to where reading ends.
pub open spec fn read_run(nick: Seq<char>, inputs: Seq<ReadInput>) -> ReadRun
    decreases inputs.len(),
{
    if inputs.len() == 0 {
        ReadRun { done: Seq::empty(), error: None }
    } else {
        let action = input_action(nick, inputs[0].input, inputs[0].now);
        match reading_after(action, inputs[0].failure) {
            ReadingView::Over => ReadRun { done: seq![action], error: None },
            ReadingView::Failed(e) => ReadRun { done: seq![action], error: Some(e) },
            ReadingView::GoesOn => {
                let rest = read_run(nick, inputs.drop_first());
                ReadRun { done: seq![action] + rest.done, error: rest.error }
            },
        }
    }
}

/// Whether reading goes on behind an input: it was not a `QUIT`, and no answer to a `PING`
/// failed to be sent.
pub open spec fn passes(i: ReadInput) -> bool {
    &&& !(i.input matches Some(CommandView::QUIT(_)))
    &&& !(i.input matches Some(CommandView::PING(_, _)) && i.failure is Some)
}

proof fn lemma_passes(nick: Seq<char>, i: ReadInput)
    ensures
        passes(i) <==> reading_after(input_action(nick, i.input, i.now), i.failure) is GoesOn,
        reading_after(input_action(nick, i.input, i.now), i.failure) is Over <==> i.input matches Some(
            CommandView::QUIT(_),
        ),
{
}

/// Reading goes on through all inputs before a `QUIT` or an answer to a `PING` that could not be
/// sent, and ends there: everything before is done, each `PING` among it answered, and nothing
/// behind. What cannot be read neither has an effect nor ends the reading. Reading ends with an
/// error only where an answer to a `PING` could not be sent.
pub proof fn reading_ends_at_quit(nick: Seq<char>, inputs: Seq<ReadInput>, n: int)
    requires
        0 <= n <= inputs.len(),
        forall|i: int| 0 <= i < n ==> passes(#[trigger] inputs[i]),
        n < inputs.len() ==> !passes(inputs[n]),
    ensures
        ({
            let run = read_run(nick, inputs);
            &&& run == read_run(nick, inputs.take(if n < inputs.len() {
                n + 1
            } else {
                n
            }))
            &&& run.done.len() == if n < inputs.len() {
                n + 1
            } else {
                n
            }
            &&& forall|i: int|
                0 <= i < run.done.len() ==> #[trigger] run.done[i] == input_action(
                    nick,
                    inputs[i].input,
                    inputs[i].now,
                )
            &&& forall|i: int|
                0 <= i < run.done.len() ==> (#[trigger] inputs[i].input matches Some(
                    CommandView::PING(a, b),
                ) ==> run.done[i] == ReadActionView::Answer(
                    message_from(None, CommandView::PONG(a, b)),
                ))
            &&& forall|i: int|
                0 <= i < run.done.len() ==> (#[trigger] inputs[i].input is None ==> run.done[i]
                    is Ignore)
            &&& run.error == if n < inputs.len() && inputs[n].input matches Some(
                CommandView::PING(_, _),
            ) {
                inputs[n].failure
            } else {
                None
            }
        }),
    decreases inputs.len(),
{
    if inputs.len() == 0 {
        assert(inputs.take(0) =~= inputs);
    } else {
        lemma_passes(nick, inputs[0]);
        let run = read_run(nick, inputs);
        let m = if n < inputs.len() {
            n + 1
        } else {
            n
        };
        assert(inputs.take(m)[0] == inputs[0]);
        if n > 0 {
            let rest = inputs.drop_first();
            assert forall|i: int| 0 <= i < n - 1 implies passes(#[trigger] rest[i]) by {
                assert(passes(inputs[i + 1]));
            }
            reading_ends_at_quit(nick, rest, n - 1);
            assert(inputs.take(m).drop_first() =~= rest.take(m - 1));
            assert forall|i: int| 0 <= i < run.done.len() implies #[trigger] run.done[i]
                == input_action(nick, inputs[i].input, inputs[i].now) by {
                if i > 0 {
                    assert(run.done[i] == read_run(nick, rest).done[i - 1]);
                    assert(rest[i - 1] == inputs[i]);
                }
            }
        }
    }
}

/// What the client is told when a text could not go to Matrix.
pub open spec fn forward_failed(nick: Seq<char>, message: MessageView, e: Seq<char>) -> MessageView {
    notice_from(
        nick,
        match message.answered_to() {
            Some(target) => target,
            None => "matrirc"@,
        },
        "Could not forward: "@ + e,
    )
}

/// Tells the client that a text could not go to Matrix.
pub fn forward_failure(nick: &str, message: &Message, e: &str) -> (r: Message)
    requires
        has_user(nick@),
    ensures
        r@ == forward_failed(nick@, message@, e@),
{
    let target: String = match message.response_target() {
        Some(target) => target,
        None => "matrirc".to_owned(),
    };
    notice(nick, &target, &cat2("Could not forward: ", e))
}

/// Every text that the client says to someone goes to Matrix, whole: only an emote loses the
/// words that mark it as one, and putting them back gives what the client said.
pub proof fn texts_are_forwarded_whole(nick: Seq<char>, target: Seq<char>, msg: Seq<char>, now: nat)
    ensures
        (match read_action(nick, CommandView::PRIVMSG(target, msg), now) {
            ReadActionView::Forward { target: t, message_type, text } => {
                &&& t == target
                &&& message_type == MatrixMessageType::Emote ==> "\u{001}ACTION "@ + text == msg
                &&& message_type != MatrixMessageType::Emote ==> text == msg
            },
            _ => false,
        }),
{
    let mark = "\u{001}ACTION "@;
    if mark.is_prefix_of(msg) {
        assert(mark + msg.skip(mark.len() as int) =~= msg);
    }
}

/// Messages carry the command that they are made with, and come from nobody or from a nick, with
/// the bridge for a host and the beginning of the nick for a user name: as much of it as has six
/// bytes, or all of a shorter one.
pub proof fn messages_carry_what_they_are_made_of(
    nick: Seq<char>,
    target: Seq<char>,
    text: Seq<char>,
    command: CommandView,
)
    requires
        has_user(nick),
    ensures
        message_from(None, command) == (MessageView { prefix: None, command }),
        raw_line(text) == (MessageView { prefix: None, command: CommandView::Raw(text) }),
        ({
            let user = user_of(nick);
            let prefix = Some(PrefixView::Nickname(nick, user, "matrirc"@));
            let bytes = encode_utf8(nick);
            &&& message_from(Some(nick), command) == (MessageView { prefix, command })
            &&& privmsg_from(nick, target, text) == (MessageView {
                prefix,
                command: CommandView::PRIVMSG(target, text),
            })
            &&& notice_from(nick, target, text) == (MessageView {
                prefix,
                command: CommandView::NOTICE(target, text),
            })
            &&& bytes.len() <= 6 ==> user == nick
            &&& bytes.len() > 6 ==> encode_utf8(user) == bytes.take(6)
        }),
{
    let bytes = encode_utf8(nick);
    encode_utf8_valid_utf8(nick);
    encode_utf8_decode_utf8(nick);
    let k = user_len(nick);
    valid_utf8_split(bytes, k);
    decode_utf8_encode_utf8(bytes.subrange(0, k));
    assert(bytes.subrange(0, k) =~= bytes.take(k));
    if bytes.len() <= 6 {
        assert(bytes.take(k) =~= bytes);
    }
}

/// Messages can come from a nick exactly where its first six bytes end with a character, and so
/// from every nick of no more than six bytes.
pub proof fn short_nicks_have_users(nick: Seq<char>)
    ensures
        encode_utf8(nick).len() <= 6 ==> has_user(nick),
        encode_utf8(nick).len() > 6 ==> (has_user(nick) <==> is_char_boundary(encode_utf8(nick), 6)),
{
    encode_utf8_valid_utf8(nick);
    if encode_utf8(nick).len() <= 6 {
        is_char_boundary_start_end_of_seq(encode_utf8(nick));
    }
}

/// Each line of a text goes from the speaker to the target, as a `NOTICE` where the text is one
/// and as a `PRIVMSG` otherwise; a text of one line is one message.
pub proof fn lines_go_from_speaker_to_target(m: IrcMessageView, i: int)
    ensures
        0 <= i < m.lines().len() ==> m.lines()[i] == match m.message_type {
            IrcMessageType::Privmsg => privmsg_from(m.from, m.target, split_on(m.text, '\n')[i]),
            IrcMessageType::Notice => notice_from(m.from, m.target, split_on(m.text, '\n')[i]),
        },
        m.lines().len() == split_on(m.text, '\n').len(),
        !m.text.contains('\n') ==> split_on(m.text, '\n') == seq![m.text],
{
    if !m.text.contains('\n') {
        lemma_unsplit(m.text, '\n');
    }
}

/// An answer to a text goes to where it was said, if that is a channel, by its first character;
/// otherwise, and for anything else, to the nick that it came from, if it came from one.
pub proof fn answers_go_where_it_was_said(
    prefix: Option<PrefixView>,
    target: Seq<char>,
    text: Seq<char>,
    other: CommandView,
)
    ensures
        ({
            let from = match prefix {
                Some(PrefixView::Nickname(nick, _, _)) => Some(nick),
                _ => None,
            };
            let chan = target.len() > 0 && (target[0] == '#' || target[0] == '&' || target[0] == '+'
                || target[0] == '!');
            let to = if chan {
                Some(target)
            } else {
                from
            };
            &&& (MessageView { prefix, command: CommandView::PRIVMSG(target, text) }).answered_to() == to
            &&& (MessageView { prefix, command: CommandView::NOTICE(target, text) }).answered_to() == to
            &&& !(other is PRIVMSG) && !(other is NOTICE) ==> (MessageView {
                prefix,
                command: other,
            }).answered_to() == from
        }),
{
}

/// A text that could not go to Matrix is told of by a notice from the client's own nick, with
/// the reason, to where an answer goes, or else to the bridge.
pub proof fn failures_are_told_where_it_was_said(nick: Seq<char>, m: MessageView, e: Seq<char>)
    ensures
        forward_failed(nick, m, e) == notice_from(
            nick,
            match m.answered_to() {
                Some(to) => to,
                None => "matrirc"@,
            },
            "Could not forward: "@ + e,
        ),
{
}

/// What the client says goes to the one it is said to, in its kind and whole: a text that does
/// not begin with the mark of an emote as a text, one that does as an emote without the mark,
/// and a notice as a notice, whatever it begins with.
pub proof fn words_are_forwarded_in_their_kind(
    nick: Seq<char>,
    target: Seq<char>,
    msg: Seq<char>,
    now: nat,
)
    ensures
        ({
            let mark = seq!['\u{1}', 'A', 'C', 'T', 'I', 'O', 'N', ' '];
            let marked = msg.len() >= 8 && msg.take(8) == mark;
            &&& !marked ==> read_action(nick, CommandView::PRIVMSG(target, msg), now) == (
            ReadActionView::Forward { target, message_type: MatrixMessageType::Text, text: msg })
            &&& marked ==> read_action(nick, CommandView::PRIVMSG(target, msg), now) == (
            ReadActionView::Forward {
                target,
                message_type: MatrixMessageType::Emote,
                text: msg.skip(8),
            })
            &&& read_action(nick, CommandView::PRIVMSG(target, mark + msg), now) == (
            ReadActionView::Forward { target, message_type: MatrixMessageType::Emote, text: msg })
            &&& read_action(nick, CommandView::NOTICE(target, msg), now) == (
            ReadActionView::Forward { target, message_type: MatrixMessageType::Notice, text: msg })
        }),
{
    let mark = seq!['\u{1}', 'A', 'C', 'T', 'I', 'O', 'N', ' '];
    reveal_strlit("\u{001}ACTION ");
    assert("\u{001}ACTION "@ =~= mark);
    if msg.len() >= 8 {
        assert(msg.take(8) =~= msg.subrange(0, 8));
    }
    assert((mark + msg).subrange(0, 8) =~= mark);
    assert((mark + msg).skip(8) =~= msg);
}

/// A client is answered what it asks for: a `PING` with the `PONG` of the same servers, the
/// modes of a channel with when it was made, its bans and who is in it with the end of the
/// list. A `QUIT` ends the reading, and anything else is ignored.
pub proof fn questions_are_answered(
    nick: Seq<char>,
    command: CommandView,
    now: nat,
)
    ensures
        (match command {
            CommandView::PING(a, b) => read_action(nick, command, now) == ReadActionView::Answer(
                MessageView { prefix: None, command: CommandView::PONG(a, b) },
            ),
            CommandView::QUIT(_) => read_action(nick, command, now) is Quit,
            CommandView::ChannelMODE(chan, modes) => if modes.len() == 0 {
                read_action(nick, command, now) == ReadActionView::Reply(
                    raw_line(":matrirc 329 "@ + nick + " "@ + chan + " "@ + decimal(now)),
                )
            } else if exists|i: int| 0 <= i < modes.len() && modes[i] == Mode::Ban {
                read_action(nick, command, now) == ReadActionView::Reply(
                    raw_line(":matrirc 368 "@ + nick + " "@ + chan + " :End"@),
                )
            } else {
                read_action(nick, command, now) is Ignore
            },
            CommandView::WHO(Some(chan)) => read_action(nick, command, now) == ReadActionView::Reply(
                raw_line(":matrirc 315 "@ + nick + " "@ + chan + " :End"@),
            ),
            CommandView::PRIVMSG(_, _) | CommandView::NOTICE(_, _) => read_action(
                nick,
                command,
                now,
            ) is Forward,
            _ => read_action(nick, command, now) is Ignore,
        }),
        input_action(nick, Some(command), now) == read_action(nick, command, now),
        input_action(nick, None, now) is Ignore,
{
}

/// Reading ends only at a `QUIT` or where an answer could not be sent: then with that error.
/// What else could not be done does not end it.
pub proof fn failures_do_not_end_reading(action: ReadActionView, e: Seq<char>)
    ensures
        reading_after(action, None) == if action is Quit {
            ReadingView::Over
        } else {
            ReadingView::GoesOn
        },
        reading_after(action, Some(e)) == if action is Quit {
            ReadingView::Over
        } else if action is Answer {
            ReadingView::Failed(e)
        } else {
            ReadingView::GoesOn
        },
{
}

} // verus!
