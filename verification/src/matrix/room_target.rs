//! What a Matrix room is to the IRC client: a query or a channel, with its members, and the
//! messages that wait until the channel is joined.

use std::collections::VecDeque;

use vstd::prelude::*;
use vstd::string::*;
use vstd::utf8::*;

use crate::ircd::chan::{join_finish_messages, join_irc_chan_finish, own_join};
use crate::ircd::proto::{
    ascii_nick_has_user, has_user, join, lemma_has_user_extend, message_from, messages,
    nick_has_user, part,
    CommandView, IrcMessage, IrcMessageType, IrcMessageView, Message, MessageView,
};
use crate::name_map::{
    first_free, first_free_at, first_free_is_unique, free_name_is_kept, lemma_variation_extends,
    some_variation_is_free, variation, NameMap,
};
use crate::text::{cat2, cat4, same, split, texts};

verus! {

/// The characters that a nick or a channel name made from a Matrix name may have.
pub open spec fn name_char(c: char) -> bool {
    ||| 'a' <= c <= 'z'
    ||| 'A' <= c <= 'Z'
    ||| c == '_'
    ||| c == '-'
}

/// A Matrix name as IRC can take it: without any character that a nick may not have.
pub open spec fn sanitized(name: Seq<char>) -> Seq<char> {
    name.filter(|c: char| name_char(c))
}

/// `regex::Regex::replace_all` with an empty replacement takes out of `text` whatever the
/// pattern matches. This pattern matches each run of characters that are neither ASCII letters
/// nor `_` nor `-`, so what is left are the characters that are, in their order. The pattern
/// is one that `regex::Regex::new` accepts.
#[verifier::external_body]
fn delete_matches(pattern: &str, text: &str) -> (r: String)
    requires
        pattern@ == "[^a-zA-Z_-]+"@,
    ensures
        r@ == sanitized(text@),
{
    regex::Regex::new(pattern).unwrap().replace_all(text, "").into_owned()
}

/// A Matrix name as IRC can take it.
pub fn sanitize(str: &str) -> (r: String)
    ensures
        r@ == sanitized(str@),
{
    delete_matches("[^a-zA-Z_-]+", str)
}

/// A sanitized name has only characters that a nick may have, so it is ASCII and messages can
/// come from it; sanitizing it again changes nothing.
pub proof fn sanitized_is_clean(name: Seq<char>)
    ensures
        forall|i: int| 0 <= i < sanitized(name).len() ==> name_char(#[trigger] sanitized(name)[i]),
        is_ascii_chars(sanitized(name)),
        has_user(sanitized(name)),
        sanitized(sanitized(name)) == sanitized(name),
{
    let clean = sanitized(name);
    let pred = |c: char| name_char(c);
    assert forall|i: int| 0 <= i < clean.len() implies name_char(#[trigger] clean[i]) by {
        name.lemma_filter_pred(pred, i);
    }
    ascii_nick_has_user(clean);
    lemma_filter_all(clean, pred);
}

proof fn lemma_filter_all(s: Seq<char>, pred: spec_fn(char) -> bool)
    requires
        forall|i: int| 0 <= i < s.len() ==> pred(#[trigger] s[i]),
    ensures
        s.filter(pred) == s,
    decreases s.len(),
{
    reveal(Seq::filter);
    if s.len() > 0 {
        lemma_filter_all(s.drop_last(), pred);
        assert(s =~= s.drop_last().push(s.last()));
    }
}

/// A message of a room on its way to the client.
#[derive(Debug)]
pub struct TargetMessage {
    /// privmsg or notice
    pub message_type: IrcMessageType,
    /// will be either from in channel, or added as prefix if different from query name
    pub from: String,
    /// actual message
    pub text: String,
}

/// What a [`TargetMessage`] holds.
pub struct TargetMessageView {
    pub message_type: IrcMessageType,
    pub from: Seq<char>,
    pub text: Seq<char>,
}

impl View for TargetMessage {
    type V = TargetMessageView;

    open spec fn view(&self) -> TargetMessageView {
        TargetMessageView {
            message_type: self.message_type,
            from: self.from@,
            text: self.text@,
        }
    }
}

impl TargetMessage {
    /// A message with its kind, its sender and its text.
    pub fn new(message_type: IrcMessageType, from: String, text: String) -> (r: Self)
        ensures
            r@ == (TargetMessageView { message_type, from: from@, text: text@ }),
    {
        TargetMessage { message_type, from, text }
    }
}

/// What a room is on the IRC side.
#[derive(Debug, Clone, Copy, PartialEq, Eq, Structural)]
pub enum RoomTargetType {
    /// room maps to a query e.g. single other member (or alone!)
    Query,
    /// room maps to a chan, and irc side has it joined
    Chan,
    /// room maps to a chan, but we're not joined: will force join
    /// on next message or user can join if they want
    LeftChan,
    /// Join in progress
    JoiningChan,
}

/// A member of a room.
#[derive(Debug)]
pub struct Member {
    pub user_id: String,
    /// the display name, or what stands for it
    pub name: String,
}

/// What a [`Member`] holds.
pub struct MemberView {
    pub user_id: Seq<char>,
    pub name: Seq<char>,
}

impl View for Member {
    type V = MemberView;

    open spec fn view(&self) -> MemberView {
        MemberView { user_id: self.user_id@, name: self.name@ }
    }
}

/// What the members of a room hold.
pub open spec fn member_views(v: Seq<Member>) -> Seq<MemberView> {
    v.map_values(|m: Member| m@)
}

/// A room as the IRC client knows it.
pub struct RoomTarget {
    /// channel name or query target
    target: String,
    /// query, channel joined, or...
    target_type: RoomTargetType,
    /// matrix user -> nick for channel.
    /// display names is a per-channel property, so we need to
    /// remember this for each user individually.
    /// In queries case, any non-trivial member is expanded as <nick> at
    /// the start of the message
    members: NameMap<String>,
    /// irc names in the channel, with the user each belongs to:
    /// used to enforce unicity
    names: NameMap<String>,
    /// used for error messages, and to queue messages while a channel is being joined
    pending_messages: VecDeque<TargetMessage>,
}

/// What a [`RoomTarget`] holds.
#[verifier::ext_equal]
pub struct RoomTargetView {
    /// Channel name without the `#`, or query target.
    pub target: Seq<char>,
    pub target_type: RoomTargetType,
    /// From user ids to nicks.
    pub members: Map<Seq<char>, Seq<char>>,
    /// From nicks to user ids.
    pub names: Map<Seq<char>, Seq<char>>,
    /// The messages that wait, the oldest first.
    pub pending: Seq<TargetMessageView>,
}

/// What the client is to be sent, in order.
pub struct Delivery {
    pub messages: Vec<Message>,
    /// whether a join began, which [`RoomTarget::complete_join`] is to end once all was sent
    pub joining: bool,
    /// whether this begins with what waited, so that [`RoomTarget::sent`] is to be told how much
    /// of it was sent
    pub flushes: bool,
}

/// What the client is to be sent to end a join, in order.
pub struct JoinDelivery {
    pub messages: Vec<Message>,
    /// how many of the messages tell who is there; the rest is what waited
    pub names: usize,
}

/// The first variation of a name that is not taken.
pub open spec fn deduped(taken: Set<Seq<char>>, name: Seq<char>) -> Seq<char> {
    choose|key: Seq<char>| first_free(taken, name, key)
}

/// What an optional text holds.
pub open spec fn opt_str(s: Option<&str>) -> Option<Seq<char>> {
    match s {
        Some(t) => Some(t@),
        None => None,
    }
}

/// What a map with texts for values holds.
pub open spec fn text_map(m: Map<Seq<char>, String>) -> Map<Seq<char>, Seq<char>> {
    m.map_values(|s: String| s@)
}

impl RoomTargetView {
    /// A room without members and messages.
    pub open spec fn fresh(target_type: RoomTargetType, target: Seq<char>) -> Self {
        RoomTargetView {
            target,
            target_type,
            members: Map::empty(),
            names: Map::empty(),
            pending: Seq::empty(),
        }
    }

    /// The channel of the room.
    pub open spec fn chan(self) -> Seq<char> {
        "#"@ + self.target
    }

    /// The nick of a user: the one it has in the room, or else its user id.
    pub open spec fn nick_of(self, user: Seq<char>) -> Seq<char> {
        if self.members.contains_key(user) {
            self.members[user]
        } else {
            user
        }
    }

    /// The nick under which the client sees a message from `from`.
    pub open spec fn speaker(self, from: Seq<char>) -> Seq<char> {
        if self.target_type == RoomTargetType::Query {
            self.target
        } else {
            from
        }
    }

    /// A message of the room as the client sees it. In a query all comes from the query's own
    /// nick, so that who said it is put before the text unless it is that nick; in a channel it
    /// comes from its sender.
    pub open spec fn as_irc(self, nick: Seq<char>, m: TargetMessageView) -> IrcMessageView {
        if self.target_type == RoomTargetType::Query {
            IrcMessageView {
                message_type: m.message_type,
                from: self.target,
                target: nick,
                text: if m.from == self.target {
                    m.text
                } else {
                    "<"@ + m.from + "> "@ + m.text
                },
            }
        } else {
            IrcMessageView {
                message_type: m.message_type,
                from: m.from,
                target: self.chan(),
                text: m.text,
            }
        }
    }

    /// The messages to the client that carry a run of the room's messages.
    pub open spec fn delivered(self, nick: Seq<char>, run: Seq<TargetMessageView>) -> Seq<MessageView>
        decreases run.len(),
    {
        if run.len() == 0 {
            Seq::empty()
        } else {
            self.as_irc(nick, run[0]).lines() + self.delivered(nick, run.drop_first())
        }
    }

    /// Whether each message that waits can be sent.
    pub open spec fn can_flush(self) -> bool {
        forall|i: int| 0 <= i < self.pending.len() ==> has_user(self.speaker(#[trigger] self.pending[i].from))
    }

    /// How many lines a message of the room has.
    pub open spec fn line_count(self, nick: Seq<char>, m: TargetMessageView) -> nat {
        self.as_irc(nick, m).lines().len()
    }

    /// How many of a run of messages were taken out of the queue, when `sent` of the messages to
    /// the client that carry it could be sent: each that was begun, sent to its end or not.
    pub open spec fn taken_out(self, nick: Seq<char>, run: Seq<TargetMessageView>, sent: nat) -> nat
        decreases run.len(),
    {
        if run.len() == 0 {
            0
        } else {
            let lines = self.line_count(nick, run[0]);
            if sent < lines {
                1
            } else {
                1 + self.taken_out(nick, run.drop_first(), (sent - lines) as nat)
            }
        }
    }

    /// After what waited was sent, as far as `sent` messages to the client.
    pub open spec fn after_sent(self, nick: Seq<char>, sent: nat) -> Self {
        RoomTargetView {
            pending: self.pending.skip(self.taken_out(nick, self.pending, sent) as int),
            ..self
        }
    }

    /// After a join was ended, as far as `sent` messages to the client could be sent, the first
    /// `names` of which tell who is there: the channel is joined once all that waited was sent.
    pub open spec fn after_join_sent(self, nick: Seq<char>, names: nat, sent: nat) -> Self {
        if sent < names {
            self
        } else if sent < names + self.delivered(nick, self.pending).len() {
            self.after_sent(nick, (sent - names) as nat)
        } else {
            self.flushed().of_type(RoomTargetType::Chan)
        }
    }

    /// Whether messages can come from the room's name and from each member, and, where the
    /// channel is joined, each message that waits can be sent.
    pub open spec fn well_named(self) -> bool {
        &&& has_user(self.target)
        &&& forall|u: Seq<char>| #[trigger] self.members.contains_key(u) ==> has_user(self.members[u])
        &&& self.target_type == RoomTargetType::Chan ==> forall|i: int|
            0 <= i < self.pending.len() ==> has_user((#[trigger] self.pending[i]).from)
    }

    /// Each member's nick is in the list of nicks, as that member's.
    pub open spec fn consistent(self) -> bool {
        forall|u: Seq<char>| #[trigger]
            self.members.contains_key(u) ==> self.names.contains_key(self.members[u])
                && self.names[self.members[u]] == u
    }

    /// Whether a text from a user can be taken in: in a query always, as all comes from the
    /// query's own name there, and so where the channel is not joined, as it has to wait; in a
    /// joined channel where messages can come from the user's nick.
    pub open spec fn hears(self, user: Seq<char>) -> bool {
        self.target_type == RoomTargetType::Chan ==> has_user(self.nick_of(user))
    }

    /// With one more message that waits.
    pub open spec fn queued(self, m: TargetMessageView) -> Self {
        RoomTargetView { pending: self.pending.push(m), ..self }
    }

    /// With no message that waits.
    pub open spec fn flushed(self) -> Self {
        RoomTargetView { pending: Seq::empty(), ..self }
    }

    /// Whether a join can begin: not where it is under way or done.
    pub open spec fn can_join(self) -> bool {
        self.target_type == RoomTargetType::LeftChan || self.target_type == RoomTargetType::Query
    }

    /// Of another kind.
    pub open spec fn of_type(self, target_type: RoomTargetType) -> Self {
        RoomTargetView { target_type, ..self }
    }

    /// With a member under the first free variation of a nick.
    pub open spec fn with_nick(self, user: Seq<char>, wanted: Seq<char>) -> Self {
        let nick = deduped(self.names.dom(), wanted);
        RoomTargetView {
            members: self.members.insert(user, nick),
            names: self.names.insert(nick, user),
            ..self
        }
    }

    /// With a member of the room. One who is named like the room gets the room's own name.
    pub open spec fn with_member(self, room_name: Seq<char>, m: MemberView) -> Self {
        self.with_nick(
            m.user_id,
            if m.name == room_name {
                self.target
            } else {
                sanitized(m.name)
            },
        )
    }

    /// With the members of the room, one after the other.
    pub open spec fn with_members(self, room_name: Seq<char>, ms: Seq<MemberView>) -> Self
        decreases ms.len(),
    {
        if ms.len() == 0 {
            self
        } else {
            self.with_members(room_name, ms.drop_last()).with_member(room_name, ms.last())
        }
    }

    /// Whether a room with these members is a channel: it has more than two, or none of the
    /// one or two is named like the room.
    pub open spec fn is_channel(room_name: Seq<char>, ms: Seq<MemberView>) -> bool {
        ms.len() > 2 || forall|i: int| 0 <= i < ms.len() ==> (#[trigger] ms[i]).name != room_name
    }

    /// With its members, as a channel that is not joined where they make it one.
    pub open spec fn filled(self, room_name: Seq<char>, ms: Seq<MemberView>) -> Self {
        let typed = if RoomTargetView::is_channel(room_name, ms) {
            self.of_type(RoomTargetType::LeftChan)
        } else {
            self
        };
        typed.with_members(room_name, ms)
    }

    /// Without a member.
    pub open spec fn without_member(self, user: Seq<char>) -> Self {
        RoomTargetView {
            members: self.members.remove(user),
            names: self.names.remove(self.members[user]),
            ..self
        }
    }

    /// The room when a text for it came in, before anything was sent: the text waits where the
    /// channel is not joined, and the join begins where it has not.
    pub open spec fn taken_in(self, m: TargetMessageView) -> Self {
        match self.target_type {
            RoomTargetType::LeftChan => self.queued(m).of_type(RoomTargetType::JoiningChan),
            RoomTargetType::JoiningChan => self.queued(m),
            _ => self,
        }
    }

    /// Whether a text goes out at once, behind what waited.
    pub open spec fn sends_at_once(self) -> bool {
        self.target_type == RoomTargetType::Query || self.target_type == RoomTargetType::Chan
    }

    /// The room when a text for it came in, and all that it made the client be sent was sent.
    pub open spec fn after_text(self, m: TargetMessageView) -> Self {
        match self.target_type {
            RoomTargetType::LeftChan => self.queued(m).of_type(RoomTargetType::JoiningChan),
            RoomTargetType::JoiningChan => self.queued(m),
            _ => self.flushed(),
        }
    }

    /// What the client is sent when a text for the room came in.
    pub open spec fn text_messages(self, nick: Seq<char>, m: TargetMessageView) -> Seq<MessageView> {
        match self.target_type {
            RoomTargetType::LeftChan => seq![own_join(self.chan())],
            RoomTargetType::JoiningChan => Seq::empty(),
            _ => self.delivered(nick, self.pending) + self.as_irc(nick, m).lines(),
        }
    }

    /// The nick that a user who joins asks for: the name given, or else the user id, as IRC can
    /// take it.
    pub open spec fn asked_nick(user: Seq<char>, name: Option<Seq<char>>) -> Seq<char> {
        sanitized(
            match name {
                Some(n) => n,
                None => user,
            },
        )
    }

    /// After a user joined: the user has a nick, and the client begins to join the channel
    /// where it is not in it yet.
    pub open spec fn after_member_join(self, user: Seq<char>, name: Option<Seq<char>>) -> Self {
        let joined = self.with_nick(user, RoomTargetView::asked_nick(user, name));
        if self.can_join() {
            joined.of_type(RoomTargetType::JoiningChan)
        } else {
            joined
        }
    }

    /// What the client is sent when a user joined.
    pub open spec fn member_join_message(self, user: Seq<char>, name: Option<Seq<char>>) -> MessageView {
        if self.can_join() {
            own_join(self.chan())
        } else {
            let nick = deduped(self.names.dom(), RoomTargetView::asked_nick(user, name));
            message_from(Some(nick), CommandView::JOIN(self.chan()))
        }
    }

    /// A text that the room's own name says.
    pub open spec fn own_text(self, text: Seq<char>) -> TargetMessageView {
        TargetMessageView {
            message_type: IrcMessageType::Privmsg,
            from: self.nick_of(self.target),
            text,
        }
    }

    /// Whether all that a text makes the client be sent can be sent.
    pub open spec fn can_send(self, from: Seq<char>) -> bool {
        self.target_type == RoomTargetType::Query || self.target_type == RoomTargetType::Chan ==> {
            &&& self.can_flush()
            &&& has_user(self.speaker(from))
        }
    }
}

impl View for RoomTarget {
    type V = RoomTargetView;

    closed spec fn view(&self) -> RoomTargetView {
        RoomTargetView {
            target: self.target@,
            target_type: self.target_type,
            members: text_map(self.members@),
            names: text_map(self.names@),
            pending: self.pending_messages@.map_values(|m: TargetMessage| m@),
        }
    }
}

proof fn lemma_text_map_insert(m: Map<Seq<char>, String>, k: Seq<char>, v: String)
    ensures
        text_map(m.insert(k, v)) == text_map(m).insert(k, v@),
{
    assert(text_map(m.insert(k, v)) =~= text_map(m).insert(k, v@));
}

proof fn lemma_text_map_remove(m: Map<Seq<char>, String>, k: Seq<char>)
    ensures
        text_map(m.remove(k)) == text_map(m).remove(k),
{
    assert(text_map(m.remove(k)) =~= text_map(m).remove(k));
}

/// What [`NameMap::insert_deduped`] picks is the first free variation.
pub proof fn lemma_deduped(taken: Set<Seq<char>>, name: Seq<char>, key: Seq<char>)
    requires
        first_free(taken, name, key),
    ensures
        deduped(taken, name) == key,
        !taken.contains(key),
{
    first_free_is_unique(taken, name, key, deduped(taken, name));
}

/// Whether a room with these members is a channel.
fn makes_channel(members: &Vec<Member>, room_name: &str) -> (r: bool)
    ensures
        r == RoomTargetView::is_channel(room_name@, member_views(members@)),
{
    let ghost ms = member_views(members@);
    let mut i: usize = 0;
    while i < members.len()
        invariant
            ms == member_views(members@),
            i <= members@.len(),
            forall|j: int| 0 <= j < i ==> (#[trigger] ms[j]).name != room_name@,
        decreases members@.len() - i,
    {
        assert(ms[i as int] == members@[i as int]@);
        if same(&members[i].name, room_name) {
            return members.len() > 2;
        }
        i = i + 1;
    }
    true
}

/// Taking in members leaves what the room is, and its name.
pub proof fn lemma_with_members(v: RoomTargetView, room_name: Seq<char>, ms: Seq<MemberView>)
    ensures
        v.with_members(room_name, ms).target == v.target,
        v.with_members(room_name, ms).target_type == v.target_type,
    decreases ms.len(),
{
    if ms.len() > 0 {
        lemma_with_members(v, room_name, ms.drop_last());
    }
}

impl RoomTarget {
    /// The two lists of members agree, and no name occurs twice in either.
    pub closed spec fn wf(self) -> bool {
        &&& self.members.wf()
        &&& self.names.wf()
        &&& self@.consistent()
    }

    /// The nicks in the room, in the order in which they are listed.
    pub closed spec fn listed(self) -> Seq<Seq<char>> {
        self.names.keys()
    }

    /// Each nick in the room is listed once.
    pub proof fn every_nick_is_listed_once(self)
        requires
            self.wf(),
        ensures
            self.listed().no_duplicates(),
            forall|n: Seq<char>| self.listed().contains(n) <==> self@.names.contains_key(n),
    {
        assert(forall|n: Seq<char>| self.names@.contains_key(n) <==> self@.names.contains_key(n));
    }

    /// Only finitely many nicks are in the room.
    pub proof fn nicks_are_finite(self)
        requires
            self.wf(),
        ensures
            self@.names.dom().finite(),
    {
        self.names.lemma_len();
        assert(self@.names.dom() =~= self.names@.dom());
    }

    /// A room of a kind and with a name.
    pub fn new(target_type: RoomTargetType, target: &str) -> (r: Self)
        ensures
            r.wf(),
            r@ == RoomTargetView::fresh(target_type, target@),
    {
        let r = RoomTarget {
            target: target.to_owned(),
            target_type,
            members: NameMap::new(),
            names: NameMap::new(),
            pending_messages: VecDeque::new(),
        };
        assert(r@ =~= RoomTargetView::fresh(target_type, target@));
        r
    }

    /// A query with a name.
    pub fn query(target: &str) -> (r: Self)
        ensures
            r.wf(),
            r@ == RoomTargetView::fresh(RoomTargetType::Query, target@),
    {
        RoomTarget::new(RoomTargetType::Query, target)
    }

    /// The name of the query, or of the channel without its `#`.
    pub fn target(&self) -> (r: String)
        ensures
            r@ == self@.target,
    {
        self.target.clone()
    }

    /// What the room is on the IRC side.
    pub fn target_type(&self) -> (r: RoomTargetType)
        ensures
            r == self@.target_type,
    {
        self.target_type
    }

    /// Whether a text from a user can be taken in.
    pub fn hears(&self, user: &str) -> (r: bool)
        requires
            self.wf(),
        ensures
            r == self@.hears(user@),
    {
        match self.target_type {
            RoomTargetType::Chan => match self.members.get(user) {
                Some(nick) => nick_has_user(nick),
                None => nick_has_user(user),
            },
            _ => true,
        }
    }

    /// Whether each message that waits can be sent.
    pub fn can_flush(&self) -> (r: bool)
        ensures
            r == self@.can_flush(),
    {
        let mut i: usize = 0;
        while i < self.pending_messages.len()
            invariant
                i <= self.pending_messages@.len(),
                forall|j: int| 0 <= j < i ==> has_user(self@.speaker(#[trigger] self@.pending[j].from)),
            decreases self.pending_messages@.len() - i,
        {
            let message: &TargetMessage = &self.pending_messages[i];
            assert(self@.pending[i as int] == message@);
            let speaks = match self.target_type {
                RoomTargetType::Query => nick_has_user(&self.target),
                _ => nick_has_user(&message.from),
            };
            if !speaks {
                assert(!has_user(self@.speaker(self@.pending[i as int].from)));
                return false;
            }
            i = i + 1;
        }
        true
    }

    /// The nicks in the room.
    pub fn names_list(&self) -> (r: Vec<String>)
        ensures
            texts(r@) == self.listed(),
    {
        self.names.names()
    }

    /// Begins to join the channel of the room, and gives the `JOIN` to send; `None` where the
    /// channel is joined or being joined already.
    pub fn join_chan(&mut self) -> (r: Option<Message>)
        requires
            old(self).wf(),
        ensures
            final(self).wf(),
            final(self).listed() == old(self).listed(),
            (match r {
                Some(m) => {
                    &&& old(self)@.can_join()
                    &&& m@ == own_join(old(self)@.chan())
                    &&& final(self)@ == old(self)@.of_type(RoomTargetType::JoiningChan)
                },
                None => !old(self)@.can_join() && final(self)@ == old(self)@,
            }),
    {
        match self.target_type {
            RoomTargetType::LeftChan | RoomTargetType::Query => {},
            // got raced or already joined
            RoomTargetType::JoiningChan | RoomTargetType::Chan => {
                return None;
            },
        }
        self.target_type = RoomTargetType::JoiningChan;
        let chan = cat2("#", &self.target);
        Some(join(None, &chan))
    }

    /// A message of the room as the client sees it.
    fn target_message_to_irc(&self, nick: &str, message: &TargetMessage) -> (r: IrcMessage)
        ensures
            r@ == self@.as_irc(nick@, message@),
    {
        match self.target_type {
            RoomTargetType::Query => {
                let text = if same(&message.from, &self.target) {
                    message.text.clone()
                } else {
                    cat4("<", &message.from, "> ", &message.text)
                };
                IrcMessage {
                    message_type: message.message_type,
                    from: self.target.clone(),
                    target: nick.to_owned(),
                    text,
                }
            },
            // mostly normal chan, but finish_join can also use this on JoiningChan
            _ => IrcMessage {
                message_type: message.message_type,
                from: message.from.clone(),
                target: cat2("#", &self.target),
                text: message.text.clone(),
            },
        }
    }

    /// What the client is to be sent for the messages that wait. They wait until
    /// [`RoomTarget::sent`] is told that they were sent.
    pub fn flush_pending_messages(&self, nick: &str) -> (r: Vec<Message>)
        requires
            self@.can_flush(),
        ensures
            messages(r@) == self@.delivered(nick@, self@.pending),
    {
        let mut r: Vec<Message> = Vec::new();
        let mut i: usize = 0;
        assert(messages(r@) =~= Seq::empty());
        assert(self@.pending.take(0) =~= Seq::empty());
        while i < self.pending_messages.len()
            invariant
                self@.can_flush(),
                i <= self.pending_messages@.len(),
                messages(r@) == self@.delivered(nick@, self@.pending.take(i as int)),
            decreases self.pending_messages@.len() - i,
        {
            let message: &TargetMessage = &self.pending_messages[i];
            assert(self@.pending[i as int] == message@);
            assert(has_user(self@.speaker(self@.pending[i as int].from)));
            let mut lines = self.target_message_to_irc(nick, message).into_iter();
            let ghost sent = lines@;
            let ghost head = r@;
            r.append(&mut lines);
            proof {
                let done = self@.pending.take(i as int);
                let one = seq![message@];
                assert(messages(r@) =~= messages(head) + messages(sent));
                assert(self@.pending.take(i + 1) =~= done + one);
                delivery_keeps_order(self@, nick@, done, one);
                lemma_delivered_one(self@, nick@, message@);
            }
            i = i + 1;
        }
        assert(self@.pending.take(i as int) =~= self@.pending);
        r
    }

    /// Takes out of the queue what was sent of it, when `sent` of the messages that
    /// [`RoomTarget::flush_pending_messages`] gave could be sent: a message is out once it was
    /// begun, and the rest stays.
    pub fn sent(&mut self, nick: &str, sent: usize)
        requires
            old(self).wf(),
        ensures
            final(self).wf(),
            final(self).listed() == old(self).listed(),
            final(self)@ == old(self)@.after_sent(nick@, sent as nat),
    {
        let mut left: usize = sent;
        let mut going = true;
        let ghost v = self@;
        let ghost mut out: int = 0;
        assert(v.pending.skip(0) =~= v.pending);
        while going && self.pending_messages.len() > 0
            invariant
                self.wf(),
                self.listed() == old(self).listed(),
                v == old(self)@,
                0 <= out <= v.pending.len(),
                self@ == (RoomTargetView { pending: v.pending.skip(out), ..v }),
                v.taken_out(nick@, v.pending, sent as nat) == if going {
                    out + v.taken_out(nick@, v.pending.skip(out), left as nat)
                } else {
                    out
                },
            decreases self.pending_messages@.len(),
        {
            let ghost before = self@;
            match self.take_waiting() {
                Some(message) => {
                    let lines: usize = split(
                        &self.target_message_to_irc(nick, &message).text,
                        '\n',
                    ).len();
                    proof {
                        assert(before.pending.drop_first() =~= v.pending.skip(out + 1));
                        assert(self@ =~= (RoomTargetView { pending: v.pending.skip(out + 1), ..v }));
                        assert(self@.as_irc(nick@, message@) == v.as_irc(nick@, message@));
                        assert(lines == v.line_count(nick@, message@));
                        out = out + 1;
                    }
                    if left < lines {
                        going = false;
                    } else {
                        left = left - lines;
                    }
                },
                None => {},
            }
        }
        assert(self@ =~= v.after_sent(nick@, sent as nat));
    }

    /// Ends the joining of the channel, when `sent` of the messages that
    /// [`RoomTarget::complete_join`] gave could be sent, the first `names` of which tell who is
    /// there: the channel is joined once all that waited for it was sent.
    pub fn finish_join(&mut self, nick: &str, names: usize, sent: usize)
        requires
            old(self).wf(),
        ensures
            final(self).wf(),
            final(self).listed() == old(self).listed(),
            final(self)@ == old(self)@.after_join_sent(nick@, names as nat, sent as nat),
    {
        if sent < names {
            return;
        }
        let ghost v = self@;
        let behind: usize = sent - names;
        let all = self.waiting_lines(nick, behind);
        self.sent(nick, behind);
        proof {
            lemma_taken_out(v, nick@, v.pending, behind as nat);
        }
        if all {
            self.target_type = RoomTargetType::Chan;
            assert(self@ =~= v.flushed().of_type(RoomTargetType::Chan));
        }
    }

    /// Whether the messages to the client that carry what waits are no more than `most`.
    fn waiting_lines(&self, nick: &str, most: usize) -> (r: bool)
        ensures
            r == (self@.delivered(nick@, self@.pending).len() <= most),
    {
        let mut left: usize = most;
        let mut i: usize = 0;
        assert(self@.pending.skip(0) =~= self@.pending);
        while i < self.pending_messages.len()
            invariant
                i <= self.pending_messages@.len(),
                left <= most,
                self@.delivered(nick@, self@.pending).len() == most - left + self@.delivered(
                    nick@,
                    self@.pending.skip(i as int),
                ).len(),
            decreases self.pending_messages@.len() - i,
        {
            let message: &TargetMessage = &self.pending_messages[i];
            let lines: usize = split(&self.target_message_to_irc(nick, message).text, '\n').len();
            assert(self@.pending.skip(i as int)[0] == message@);
            assert(self@.pending.skip(i as int).drop_first() =~= self@.pending.skip(i + 1));
            assert(lines == self@.line_count(nick@, message@));
            if left < lines {
                return false;
            }
            left = left - lines;
            i = i + 1;
        }
        assert(self@.pending.skip(i as int).len() == 0);
        true
    }

    /// What ends the joining of the channel: the client is told who is there, and is sent the
    /// messages that waited. [`RoomTarget::finish_join`] is to be told how much of it was sent.
    pub fn complete_join(&self, nick: &str) -> (r: JoinDelivery)
        requires
            self@.can_flush(),
        ensures
            ({
                let names = join_finish_messages(nick@, self@.chan(), self.listed());
                &&& messages(r.messages@) == names + self@.delivered(nick@, self@.pending)
                &&& r.names == names.len()
            }),
    {
        let chan = cat2("#", &self.target);
        let names_list = self.names_list();
        let mut r = join_irc_chan_finish(nick, &chan, &names_list);
        let ghost head = r@;
        let names: usize = r.len();
        assert(messages(head).len() == names);
        let mut waited = self.flush_pending_messages(nick);
        let ghost tail = waited@;
        r.append(&mut waited);
        assert(messages(r@) =~= messages(head) + messages(tail));
        JoinDelivery { messages: r, names }
    }

    /// An error that will be sent next time a message from the room is sent
    /// (or when it's finished joining in case of chan trying to join).
    pub fn set_error(&mut self, error: &str)
        requires
            old(self).wf(),
        ensures
            final(self).wf(),
            final(self).listed() == old(self).listed(),
            final(self)@ == old(self)@.queued(
                (TargetMessageView {
                    message_type: IrcMessageType::Notice,
                    from: "matrirc"@,
                    text: error@,
                }),
            ),
    {
        self.queue(
            TargetMessage::new(IrcMessageType::Notice, "matrirc".to_owned(), error.to_owned()),
        );
    }

    fn take_waiting(&mut self) -> (r: Option<TargetMessage>)
        requires
            old(self).wf(),
        ensures
            final(self).wf(),
            final(self).listed() == old(self).listed(),
            (match r {
                Some(m) => {
                    &&& old(self)@.pending.len() > 0
                    &&& m@ == old(self)@.pending[0]
                    &&& final(self)@ == (RoomTargetView {
                        pending: old(self)@.pending.drop_first(),
                        ..old(self)@
                    })
                },
                None => old(self)@.pending.len() == 0 && final(self)@ == old(self)@,
            }),
    {
        let r = self.pending_messages.pop_front();
        if let Some(m) = &r {
            assert(old(self)@.pending[0] == m@);
            assert(self@.pending =~= old(self)@.pending.drop_first());
        }
        r
    }

    fn queue(&mut self, message: TargetMessage)
        requires
            old(self).wf(),
        ensures
            final(self).wf(),
            final(self).listed() == old(self).listed(),
            final(self)@ == old(self)@.queued(message@),
    {
        self.pending_messages.push_back(message);
        assert(self@ =~= old(self)@.queued(message@));
    }

    /// Takes in a text from a user of the room. It goes to the client at once where the room
    /// is a query or a joined channel, behind what waited, which stays in the queue until
    /// [`RoomTarget::sent`] is told that it was sent; otherwise it waits for the join, which
    /// begins here where it has not begun.
    pub fn send_text_to_irc(
        &mut self,
        nick: &str,
        message_type: IrcMessageType,
        sender: &str,
        text: &str,
    ) -> (r: Delivery)
        requires
            old(self).wf(),
            old(self)@.can_send(old(self)@.nick_of(sender@)),
        ensures
            final(self).wf(),
            final(self).listed() == old(self).listed(),
            ({
                let m = TargetMessageView {
                    message_type,
                    from: old(self)@.nick_of(sender@),
                    text: text@,
                };
                &&& final(self)@ == old(self)@.taken_in(m)
                &&& messages(r.messages@) == old(self)@.text_messages(nick@, m)
                &&& r.joining == (old(self)@.target_type == RoomTargetType::LeftChan)
                &&& r.flushes == old(self)@.sends_at_once()
            }),
    {
        let from: String = match self.members.get(sender) {
            Some(name) => name.clone(),
            None => sender.to_owned(),
        };
        let message = TargetMessage::new(message_type, from, text.to_owned());
        let ghost m = message@;
        match self.target_type {
            RoomTargetType::LeftChan => {
                self.queue(message);
                let mut sent: Vec<Message> = Vec::new();
                match self.join_chan() {
                    Some(join) => {
                        sent.push(join);
                    },
                    None => {},
                }
                assert(messages(sent@) =~= seq![own_join(old(self)@.chan())]);
                Delivery { messages: sent, joining: true, flushes: false }
            },
            RoomTargetType::JoiningChan => {
                self.queue(message);
                let sent: Vec<Message> = Vec::new();
                assert(messages(sent@) =~= Seq::empty());
                Delivery { messages: sent, joining: false, flushes: false }
            },
            _ => {
                // really send -- start with pending messages if any
                let mut sent = self.flush_pending_messages(nick);
                let ghost head = sent@;
                let mut lines = self.target_message_to_irc(nick, &message).into_iter();
                let ghost tail = lines@;
                sent.append(&mut lines);
                assert(messages(sent@) =~= messages(head) + messages(tail));
                Delivery { messages: sent, joining: false, flushes: true }
            },
        }
    }

    /// Takes in a text from the room's own name.
    pub fn send_simple_query(&mut self, nick: &str, text: &str) -> (r: Delivery)
        requires
            old(self).wf(),
            old(self)@.can_send(old(self)@.nick_of(old(self)@.target)),
        ensures
            final(self).wf(),
            final(self).listed() == old(self).listed(),
            ({
                let m = old(self)@.own_text(text@);
                &&& final(self)@ == old(self)@.taken_in(m)
                &&& messages(r.messages@) == old(self)@.text_messages(nick@, m)
                &&& r.joining == (old(self)@.target_type == RoomTargetType::LeftChan)
                &&& r.flushes == old(self)@.sends_at_once()
            }),
    {
        let target = self.target();
        self.send_text_to_irc(nick, IrcMessageType::Privmsg, &target, text)
    }

    /// Gives a user the first free variation of a nick.
    fn add_member(&mut self, user: &str, wanted: &str) -> (r: String)
        requires
            old(self).wf(),
        ensures
            final(self).wf(),
            r@ == deduped(old(self)@.names.dom(), wanted@),
            first_free(old(self)@.names.dom(), wanted@, r@),
            final(self)@ == old(self)@.with_nick(user@, wanted@),
    {
        let ghost before = *self;
        assert(before.names@.dom() =~= before@.names.dom());
        let id: String = user.to_owned();
        let nick = self.names.insert_deduped(wanted, id);
        let ghost named = self.names@;
        proof {
            lemma_deduped(before@.names.dom(), wanted@, nick@);
            lemma_text_map_insert(before.names@, nick@, id);
            lemma_text_map_insert(before.members@, user@, nick);
        }
        self.members.insert(user.to_owned(), nick.clone());
        assert(self@ =~= before@.with_nick(user@, wanted@));
        proof {
            assert(self@.consistent()) by {
                assert forall|u: Seq<char>| #[trigger] self@.members.contains_key(u) implies
                    self@.names.contains_key(self@.members[u]) && self@.names[self@.members[u]]
                    == u by {
                    if u != user@ {
                        assert(before@.members.contains_key(u));
                        assert(before@.names.contains_key(before@.members[u]));
                    }
                }
            }
        }
        nick
    }

    /// Takes in the members of the room. A room without members is an error; the room becomes
    /// a channel that is not joined where its members make it one.
    pub fn fill_room_members(&mut self, members: &Vec<Member>, room_name: &str) -> (r: Result<
        (),
        String,
    >)
        requires
            old(self).wf(),
        ensures
            final(self).wf(),
            (match r {
                Ok(()) => {
                    &&& members@.len() > 0
                    &&& final(self)@ == old(self)@.filled(room_name@, member_views(members@))
                },
                Err(e) => {
                    &&& members@.len() == 0
                    &&& final(self)@ == old(self)@
                    &&& e@ == "Message in empty room "@ + room_name@ + "?"@
                },
            }),
    {
        if members.len() == 0 {
            return Err(crate::text::cat3("Message in empty room ", room_name, "?"));
        }
        let ghost ms = member_views(members@);
        // promote to chan if other member name isn't room name
        if makes_channel(members, room_name) {
            self.target_type = RoomTargetType::LeftChan;
        }
        let ghost typed = self@;
        assert(typed =~= if RoomTargetView::is_channel(room_name@, ms) {
            old(self)@.of_type(RoomTargetType::LeftChan)
        } else {
            old(self)@
        });
        let mut k: usize = 0;
        assert(ms.take(0) =~= Seq::empty());
        while k < members.len()
            invariant
                ms == member_views(members@),
                k <= members@.len(),
                self.wf(),
                self@ == typed.with_members(room_name@, ms.take(k as int)),
            decreases members@.len() - k,
        {
            assert(ms.take(k + 1).drop_last() =~= ms.take(k as int));
            assert(ms.take(k + 1).last() == members@[k as int]@);
            // ensure we preserve room target's name to simplify member's nick in queries
            let wanted: String = if same(&members[k].name, room_name) {
                self.target.clone()
            } else {
                sanitize(&members[k].name)
            };
            let _ = self.add_member(&members[k].user_id, &wanted);
            k = k + 1;
        }
        assert(ms.take(k as int) =~= ms);
        Ok(())
    }

    /// A user joined the room: the user gets a nick, and the client is told, by joining the
    /// channel itself where it is not in it yet.
    pub fn member_join(&mut self, member: &str, name: Option<&str>) -> (r: Delivery)
        requires
            old(self).wf(),
        ensures
            final(self).wf(),
            final(self)@ == old(self)@.after_member_join(member@, opt_str(name)),
            messages(r.messages@) == seq![old(self)@.member_join_message(member@, opt_str(name))],
            r.joining == old(self)@.can_join(),
            !r.flushes,
    {
        let chan = cat2("#", &self.target);
        let given: &str = match name {
            Some(n) => n,
            None => member,
        };
        let wanted = sanitize(given);
        let nick = self.add_member(member, &wanted);
        let mut sent: Vec<Message> = Vec::new();
        let joining = match self.join_chan() {
            Some(join) => {
                sent.push(join);
                true
            },
            None => {
                proof {
                    sanitized_is_clean(given@);
                    lemma_clean_variation(old(self)@.names.dom(), wanted@, nick@);
                }
                // already joined chan, send join to irc
                sent.push(join(Some(&nick), &chan));
                false
            },
        };
        assert(messages(sent@) =~= seq![sent@[0]@]);
        Delivery { messages: sent, joining, flushes: false }
    }

    /// A user left the room: the nick is free again, and the client is told. Nothing happens
    /// for one who was not there.
    pub fn member_part(&mut self, member: &str) -> (r: Option<Message>)
        requires
            old(self).wf(),
            old(self)@.members.contains_key(member@) ==> has_user(old(self)@.members[member@]),
        ensures
            final(self).wf(),
            (match r {
                Some(m) => {
                    &&& old(self)@.members.contains_key(member@)
                    &&& final(self)@ == old(self)@.without_member(member@)
                    &&& m@ == message_from(
                        Some(old(self)@.members[member@]),
                        CommandView::PART(old(self)@.chan()),
                    )
                },
                None => {
                    &&& !old(self)@.members.contains_key(member@)
                    &&& final(self)@ == old(self)@
                },
            }),
    {
        let ghost before = *self;
        match self.members.remove(member) {
            None => {
                assert(self.members@ =~= before.members@);
                assert(self@ =~= before@);
                None
            },
            Some(name) => {
                let chan = cat2("#", &self.target);
                let _ = self.names.remove(&name);
                proof {
                    lemma_text_map_remove(before.members@, member@);
                    lemma_text_map_remove(before.names@, name@);
                    assert(self@ =~= before@.without_member(member@));
                    assert forall|u: Seq<char>| #[trigger] self@.members.contains_key(u) implies
                        self@.names.contains_key(self@.members[u]) && self@.names[self@.members[u]]
                        == u by {
                        assert(before@.members.contains_key(u));
                        assert(before@.members.contains_key(member@));
                    }
                }
                Some(part(Some(&name), &chan))
            },
        }
    }
}

/// A free variation of a clean nick is one that messages can come from.
pub proof fn lemma_clean_variation(taken: Set<Seq<char>>, wanted: Seq<char>, key: Seq<char>)
    requires
        first_free(taken, wanted, key),
        has_user(wanted),
    ensures
        has_user(key),
{
    let n = choose|n: nat| first_free_at(taken, wanted, key, n);
    let ending = lemma_variation_extends(wanted, n);
    lemma_has_user_extend(wanted, ending);
}

/// No two members of a room have the same nick.
pub proof fn members_have_distinct_nicks(v: RoomTargetView, a: Seq<char>, b: Seq<char>)
    requires
        v.consistent(),
        v.members.contains_key(a),
        v.members.contains_key(b),
        v.members[a] == v.members[b],
    ensures
        a == b,
{
}

/// A user who joins gets a nick that nobody has, and no one else's nick changes.
pub proof fn joining_takes_a_free_nick(v: RoomTargetView, user: Seq<char>, wanted: Seq<char>)
    requires
        v.names.dom().finite(),
    ensures
        ({
            let joined = v.with_nick(user, wanted);
            let nick = joined.members[user];
            &&& !v.names.contains_key(nick)
            &&& joined.names[nick] == user
            &&& !v.names.contains_key(wanted) ==> nick == wanted
            &&& forall|u: Seq<char>| u != user && #[trigger] v.members.contains_key(u)
                ==> joined.members.contains_key(u) && joined.members[u] == v.members[u]
            &&& v.consistent() ==> joined.consistent()
        }),
{
    let nick = deduped(v.names.dom(), wanted);
    some_variation_is_free(v.names.dom(), wanted);
    assert(first_free(v.names.dom(), wanted, nick));
    if !v.names.contains_key(wanted) {
        free_name_is_kept(v.names.dom(), wanted, nick);
    }
    if v.consistent() {
        let joined = v.with_nick(user, wanted);
        assert forall|u: Seq<char>| #[trigger] joined.members.contains_key(u) implies
            joined.names.contains_key(joined.members[u]) && joined.names[joined.members[u]] == u by {
            if u != user {
                assert(v.members.contains_key(u));
            }
        }
    }
}

/// Leaving undoes joining: the room is as it was before the user came.
pub proof fn leaving_undoes_joining(v: RoomTargetView, user: Seq<char>, wanted: Seq<char>)
    requires
        v.names.dom().finite(),
        !v.members.contains_key(user),
    ensures
        v.with_nick(user, wanted).without_member(user) == v,
{
    joining_takes_a_free_nick(v, user, wanted);
    let back = v.with_nick(user, wanted).without_member(user);
    assert(back.members =~= v.members);
    assert(back.names =~= v.names);
}

/// What is delivered for two runs of messages is what is delivered for each, one after the
/// other.
pub proof fn delivery_keeps_order(
    v: RoomTargetView,
    nick: Seq<char>,
    a: Seq<TargetMessageView>,
    b: Seq<TargetMessageView>,
)
    ensures
        v.delivered(nick, a + b) == v.delivered(nick, a) + v.delivered(nick, b),
    decreases a.len(),
{
    if a.len() == 0 {
        assert(a + b =~= b);
        assert(v.delivered(nick, a) + v.delivered(nick, b) =~= v.delivered(nick, b));
    } else {
        delivery_keeps_order(v, nick, a.drop_first(), b);
        assert((a + b).drop_first() =~= a.drop_first() + b);
        assert(v.delivered(nick, a + b) =~= v.delivered(nick, a) + v.delivered(nick, b));
    }
}

/// What is delivered depends on the room's name and on whether it is a query, not on whether
/// its channel is joined yet.
pub proof fn lemma_delivered_same(
    v: RoomTargetView,
    w: RoomTargetView,
    nick: Seq<char>,
    run: Seq<TargetMessageView>,
)
    requires
        v.target == w.target,
        (v.target_type == RoomTargetType::Query) == (w.target_type == RoomTargetType::Query),
    ensures
        v.delivered(nick, run) == w.delivered(nick, run),
    decreases run.len(),
{
    if run.len() > 0 {
        lemma_delivered_same(v, w, nick, run.drop_first());
    }
}

/// The room after a run of texts came in.
pub open spec fn after_texts(v: RoomTargetView, run: Seq<TargetMessageView>) -> RoomTargetView
    decreases run.len(),
{
    if run.len() == 0 {
        v
    } else {
        after_texts(v, run.drop_last()).after_text(run.last())
    }
}

/// All that the client is sent while a run of texts comes in.
pub open spec fn sent_for_texts(
    v: RoomTargetView,
    nick: Seq<char>,
    run: Seq<TargetMessageView>,
) -> Seq<MessageView>
    decreases run.len(),
{
    if run.len() == 0 {
        Seq::empty()
    } else {
        sent_for_texts(v, nick, run.drop_last()) + after_texts(v, run.drop_last()).text_messages(
            nick,
            run.last(),
        )
    }
}

proof fn lemma_texts_wait(v: RoomTargetView, nick: Seq<char>, run: Seq<TargetMessageView>)
    requires
        v.target_type == RoomTargetType::LeftChan,
        run.len() > 0,
    ensures
        after_texts(v, run) == (RoomTargetView {
            pending: v.pending + run,
            target_type: RoomTargetType::JoiningChan,
            ..v
        }),
        sent_for_texts(v, nick, run) == seq![own_join(v.chan())],
    decreases run.len(),
{
    reveal_with_fuel(after_texts, 2);
    reveal_with_fuel(sent_for_texts, 2);
    assert(run =~= run.drop_last().push(run.last()));
    if run.len() == 1 {
        assert(run.drop_last() =~= Seq::empty());
        assert(after_texts(v, run).pending =~= v.pending + run);
        assert(sent_for_texts(v, nick, run) =~= seq![own_join(v.chan())]);
    } else {
        lemma_texts_wait(v, nick, run.drop_last());
        assert(after_texts(v, run).pending =~= v.pending + run);
        assert(sent_for_texts(v, nick, run) =~= seq![own_join(v.chan())]);
    }
}

/// A channel that is not joined loses no text: while texts come in the client is sent one
/// `JOIN` and nothing else, and when the join is finished it is sent all that waited, those
/// texts behind what waited before, each once and in order. Then nothing waits.
pub proof fn texts_wait_for_the_join(v: RoomTargetView, nick: Seq<char>, run: Seq<TargetMessageView>)
    requires
        v.target_type == RoomTargetType::LeftChan,
        run.len() > 0,
    ensures
        ({
            let waiting = after_texts(v, run);
            &&& waiting.target_type == RoomTargetType::JoiningChan
            &&& sent_for_texts(v, nick, run) == seq![own_join(v.chan())]
            &&& waiting.delivered(nick, waiting.pending) == v.delivered(nick, v.pending) + v.delivered(
                nick,
                run,
            )
            &&& waiting.flushed().of_type(RoomTargetType::Chan).pending.len() == 0
        }),
{
    let waiting = after_texts(v, run);
    lemma_texts_wait(v, nick, run);
    delivery_keeps_order(waiting, nick, v.pending, run);
    lemma_delivered_same(v, waiting, nick, v.pending);
    lemma_delivered_same(v, waiting, nick, run);
}

/// In a query or a joined channel every text goes out at once: after a run of texts nothing
/// waits, and the client was sent what waited before and then the run, each once and in order.
pub proof fn texts_go_out_at_once(v: RoomTargetView, nick: Seq<char>, run: Seq<TargetMessageView>)
    requires
        v.target_type == RoomTargetType::Query || v.target_type == RoomTargetType::Chan,
        run.len() > 0,
    ensures
        after_texts(v, run) == v.flushed(),
        sent_for_texts(v, nick, run) == v.delivered(nick, v.pending) + v.delivered(nick, run),
    decreases run.len(),
{
    reveal_with_fuel(after_texts, 2);
    reveal_with_fuel(sent_for_texts, 2);
    reveal_with_fuel(RoomTargetView::delivered, 2);
    let last = seq![run.last()];
    assert(run =~= run.drop_last() + last);
    delivery_keeps_order(v, nick, run.drop_last(), last);
    assert(last.drop_first() =~= Seq::empty());
    assert(v.delivered(nick, last) =~= v.as_irc(nick, run.last()).lines());
    if run.len() == 1 {
        assert(run.drop_last() =~= Seq::empty());
        assert(sent_for_texts(v, nick, run) =~= v.delivered(nick, v.pending) + v.delivered(
            nick,
            run,
        ));
    } else {
        let before = v.flushed();
        texts_go_out_at_once(v, nick, run.drop_last());
        assert(before.as_irc(nick, run.last()) == v.as_irc(nick, run.last()));
        assert(before.delivered(nick, before.pending) =~= Seq::empty());
        assert(before.flushed() =~= before);
        assert(sent_for_texts(v, nick, run) =~= v.delivered(nick, v.pending) + v.delivered(
            nick,
            run,
        ));
    }
}

/// A well named room can send what a user says that it hears, and all that waits, unless the
/// channel is not joined.
pub proof fn well_named_rooms_can_send(v: RoomTargetView, user: Seq<char>)
    requires
        v.well_named(),
    ensures
        v.sends_at_once() ==> v.can_flush(),
        v.hears(user) ==> v.can_send(v.nick_of(user)),
        v.members.contains_key(user) || has_user(user) ==> v.hears(user),
{
    if v.sends_at_once() {
        assert forall|i: int| 0 <= i < v.pending.len() implies has_user(
            v.speaker(#[trigger] v.pending[i].from),
        ) by {
            assert(v.target_type == RoomTargetType::Chan ==> has_user(v.pending[i].from));
        }
    }
}

/// A room with a name that messages can come from is well named, and stays so whatever happens
/// to it: texts, errors, joins of the channel, members who come and go, and messages that are
/// sent or cannot be.
pub proof fn rooms_stay_well_named(
    v: RoomTargetView,
    m: TargetMessageView,
    user: Seq<char>,
    wanted: Seq<char>,
    kind: RoomTargetType,
    nick: Seq<char>,
    names: nat,
    sent: nat,
)
    requires
        v.well_named(),
        v.names.dom().finite(),
        has_user(wanted),
    ensures
        RoomTargetView::fresh(kind, v.target).well_named(),
        has_user(m.from) ==> v.queued(m).well_named(),
        v.taken_in(m).well_named(),
        v.after_text(m).well_named(),
        v.flushed().of_type(kind).well_named(),
        kind != RoomTargetType::Chan ==> v.of_type(kind).well_named(),
        v.with_nick(user, wanted).well_named(),
        v.without_member(user).well_named(),
        v.after_sent(nick, sent).well_named(),
        v.after_join_sent(nick, names, sent).well_named(),
{
    if v.target_type == RoomTargetType::Chan && has_user(m.from) {
        assert forall|i: int| 0 <= i < v.queued(m).pending.len() implies has_user(
            (#[trigger] v.queued(m).pending[i]).from,
        ) by {
            if i < v.pending.len() {
                assert(has_user(v.pending[i].from));
            }
        }
    }
    lemma_taken_out(v, nick, v.pending, sent);
    lemma_skip_well_named(v, v.taken_out(nick, v.pending, sent));
    if sent >= names {
        let behind = (sent - names) as nat;
        lemma_taken_out(v, nick, v.pending, behind);
        lemma_skip_well_named(v, v.taken_out(nick, v.pending, behind));
    }
    let free = deduped(v.names.dom(), wanted);
    some_variation_is_free(v.names.dom(), wanted);
    lemma_clean_variation(v.names.dom(), wanted, free);
    assert forall|u: Seq<char>| #[trigger] v.with_nick(user, wanted).members.contains_key(u) implies
        has_user(v.with_nick(user, wanted).members[u]) by {
        if u != user {
            assert(v.members.contains_key(u));
        }
    }
    assert forall|u: Seq<char>| #[trigger] v.without_member(user).members.contains_key(u) implies
        has_user(v.without_member(user).members[u]) by {
        assert(v.members.contains_key(u));
    }
}

/// Fewer messages that wait leave a room well named.
proof fn lemma_skip_well_named(v: RoomTargetView, n: nat)
    requires
        v.well_named(),
        n <= v.pending.len(),
    ensures
        (RoomTargetView { pending: v.pending.skip(n as int), ..v }).well_named(),
{
    let w = RoomTargetView { pending: v.pending.skip(n as int), ..v };
    if v.target_type == RoomTargetType::Chan {
        assert forall|i: int| 0 <= i < w.pending.len() implies has_user(
            (#[trigger] w.pending[i]).from,
        ) by {
            assert(has_user(v.pending[i + n].from));
        }
    }
}

/// What is taken out of a queue is no more than what was in it, and is all of it where all of
/// its lines were sent.
proof fn lemma_taken_out(v: RoomTargetView, nick: Seq<char>, run: Seq<TargetMessageView>, sent: nat)
    ensures
        v.taken_out(nick, run, sent) <= run.len(),
        sent >= v.delivered(nick, run).len() ==> v.taken_out(nick, run, sent) == run.len(),
    decreases run.len(),
{
    if run.len() > 0 {
        let lines = v.line_count(nick, run[0]);
        if sent >= lines {
            lemma_taken_out(v, nick, run.drop_first(), (sent - lines) as nat);
        }
    }
}

/// The lines of a message.
proof fn lemma_delivered_one(v: RoomTargetView, nick: Seq<char>, m: TargetMessageView)
    ensures
        v.delivered(nick, seq![m]) == v.as_irc(nick, m).lines(),
{
    reveal_with_fuel(RoomTargetView::delivered, 2);
    assert(seq![m].drop_first() =~= Seq::empty());
    assert(v.delivered(nick, seq![m]) =~= v.as_irc(nick, m).lines());
}

/// Where all could be sent, nothing waits any more: what came in went out behind all that
/// waited, and a channel that was being joined is joined.
pub proof fn sending_all_empties_the_queue(
    v: RoomTargetView,
    nick: Seq<char>,
    m: TargetMessageView,
    names: nat,
    sent: nat,
)
    requires
        sent >= v.delivered(nick, v.pending).len(),
    ensures
        v.sends_at_once() ==> v.taken_in(m).after_sent(nick, sent) == v.after_text(m),
        !v.sends_at_once() ==> v.taken_in(m) == v.after_text(m),
        v.after_join_sent(nick, names, names + sent) == v.flushed().of_type(RoomTargetType::Chan),
{
    lemma_taken_out(v, nick, v.pending, sent);
    if v.sends_at_once() {
        assert(v.taken_in(m).after_sent(nick, sent).pending =~= Seq::empty());
    }
}

/// Where not all could be sent, a message that was not begun still waits, in its order: what is
/// out of the queue are the messages up to the first of which not all lines were sent.
pub proof fn what_was_not_begun_still_waits(v: RoomTargetView, nick: Seq<char>, sent: nat, k: int)
    requires
        0 <= k < v.pending.len(),
    ensures
        ({
            let out = v.taken_out(nick, v.pending, sent);
            &&& out <= v.pending.len()
            &&& v.after_sent(nick, sent).pending == v.pending.skip(out as int)
            &&& k < out <==> v.delivered(nick, v.pending.take(k)).len() <= sent
        }),
{
    lemma_taken_out(v, nick, v.pending, sent);
    lemma_begun(v, nick, v.pending, sent, k);
}

proof fn lemma_begun(
    v: RoomTargetView,
    nick: Seq<char>,
    run: Seq<TargetMessageView>,
    sent: nat,
    k: int,
)
    requires
        0 <= k < run.len(),
    ensures
        k < v.taken_out(nick, run, sent) <==> v.delivered(nick, run.take(k)).len() <= sent,
    decreases run.len(),
{
    let lines = v.line_count(nick, run[0]);
    if k == 0 {
        assert(run.take(0) =~= Seq::empty());
    } else {
        let rest = run.drop_first();
        assert(run.take(k)[0] == run[0]);
        assert(run.take(k).drop_first() =~= rest.take(k - 1));
        if sent >= lines {
            lemma_begun(v, nick, rest, (sent - lines) as nat, k - 1);
        }
    }
}

/// Taking in the members of a room keeps it well named.
pub proof fn members_stay_well_named(v: RoomTargetView, room_name: Seq<char>, ms: Seq<MemberView>)
    requires
        v.well_named(),
        v.names.dom().finite(),
    ensures
        v.with_members(room_name, ms).well_named(),
        v.with_members(room_name, ms).names.dom().finite(),
        v.with_members(room_name, ms).target == v.target,
    decreases ms.len(),
{
    if ms.len() > 0 {
        let before = v.with_members(room_name, ms.drop_last());
        let m = ms.last();
        members_stay_well_named(v, room_name, ms.drop_last());
        sanitized_is_clean(m.name);
        let wanted = if m.name == room_name {
            before.target
        } else {
            sanitized(m.name)
        };
        rooms_stay_well_named(
            before,
            TargetMessageView {
                message_type: IrcMessageType::Notice,
                from: wanted,
                text: Seq::empty(),
            },
            m.user_id,
            wanted,
            RoomTargetType::Query,
            Seq::empty(),
            0,
            0,
        );
    }
}

/// A member who is named like the room gets the room's own name, unless someone has it, and so
/// speaks in a query without being named at the start of each text; anyone else is named there.
pub proof fn namesakes_speak_plainly(
    v: RoomTargetView,
    room_name: Seq<char>,
    m: MemberView,
    nick: Seq<char>,
    text: TargetMessageView,
)
    requires
        v.target_type == RoomTargetType::Query,
        v.names.dom().finite(),
        !v.names.contains_key(v.target),
        m.name == room_name,
    ensures
        ({
            let w = v.with_member(room_name, m);
            &&& w.nick_of(m.user_id) == v.target
            &&& text.from == w.nick_of(m.user_id) ==> w.as_irc(nick, text).text == text.text
            &&& text.from != v.target ==> w.as_irc(nick, text).text == "<"@ + text.from + "> "@ + text.text
        }),
{
    joining_takes_a_free_nick(v, m.user_id, v.target);
}

/// A room keeps its name, whatever happens to it.
pub proof fn rooms_keep_their_names(
    v: RoomTargetView,
    m: TargetMessageView,
    user: Seq<char>,
    name: Option<Seq<char>>,
    kind: RoomTargetType,
    nick: Seq<char>,
    names: nat,
    sent: nat,
)
    ensures
        v.queued(m).target == v.target,
        v.taken_in(m).target == v.target,
        v.after_text(m).target == v.target,
        v.after_sent(nick, sent).target == v.target,
        v.after_join_sent(nick, names, sent).target == v.target,
        v.flushed().of_type(kind).target == v.target,
        v.after_member_join(user, name).target == v.target,
        v.without_member(user).target == v.target,
{
}

/// Of a Matrix name the ASCII letters, underscores and hyphens stay, in their order, and every
/// other character is left out.
pub proof fn letters_stay(a: Seq<char>, b: Seq<char>, c: char)
    ensures
        sanitized(a + b) == sanitized(a) + sanitized(b),
        sanitized(Seq::empty()) == Seq::<char>::empty(),
        sanitized(seq![c]) == if ('a' <= c <= 'z') || ('A' <= c <= 'Z') || c == '_' || c == '-' {
            seq![c]
        } else {
            Seq::empty()
        },
{
    let pred = |x: char| name_char(x);
    Seq::filter_distributes_over_add(a, b, pred);
    reveal(Seq::filter);
    assert(seq![c].drop_last() =~= Seq::empty());
    assert(Seq::<char>::empty().filter(pred) =~= Seq::empty());
    assert(sanitized(seq![c]) =~= if name_char(c) {
        seq![c]
    } else {
        Seq::empty()
    });
}

/// A room of one or two members is a query where any of them, wherever in the list, is named
/// like the room, and a channel that is not joined where none is; with more members it is always
/// such a channel. The order in which the members are listed does not matter.
pub proof fn namesakes_make_a_query(
    v: RoomTargetView,
    room_name: Seq<char>,
    ms: Seq<MemberView>,
    ns: Seq<MemberView>,
    i: int,
)
    requires
        v.target_type == RoomTargetType::Query,
        ms.len() > 0,
    ensures
        ms.len() <= 2 && 0 <= i < ms.len() && ms[i].name == room_name ==> v.filled(
            room_name,
            ms,
        ).target_type == RoomTargetType::Query,
        ms.len() <= 2 && (forall|k: int| 0 <= k < ms.len() ==> (#[trigger] ms[k]).name != room_name)
            ==> v.filled(room_name, ms).target_type == RoomTargetType::LeftChan,
        ms.len() > 2 ==> v.filled(room_name, ms).target_type == RoomTargetType::LeftChan,
        ns.len() == ms.len() && (forall|m: MemberView| #[trigger] ms.contains(m) <==> ns.contains(m))
            ==> v.filled(room_name, ns).target_type == v.filled(room_name, ms).target_type,
{
    let left = v.of_type(RoomTargetType::LeftChan);
    lemma_with_members(v, room_name, ms);
    lemma_with_members(left, room_name, ms);
    lemma_with_members(v, room_name, ns);
    lemma_with_members(left, room_name, ns);
    if ns.len() == ms.len() && (forall|m: MemberView| #[trigger]
        ms.contains(m) <==> ns.contains(m)) {
        assert forall|k: int| 0 <= k < ms.len() implies ns.contains(#[trigger] ms[k]) by {
            assert(ms.contains(ms[k]));
        }
        assert forall|k: int| 0 <= k < ns.len() implies ms.contains(#[trigger] ns[k]) by {
            assert(ns.contains(ns[k]));
        }
        if RoomTargetView::is_channel(room_name, ms) && ms.len() <= 2 {
            assert forall|k: int| 0 <= k < ns.len() implies (#[trigger] ns[k]).name != room_name by {
                let j = choose|j: int| 0 <= j < ms.len() && ms[j] == ns[k];
                assert(ms[j].name != room_name);
            }
        }
        if RoomTargetView::is_channel(room_name, ns) && ns.len() <= 2 {
            assert forall|k: int| 0 <= k < ms.len() implies (#[trigger] ms[k]).name != room_name by {
                let j = choose|j: int| 0 <= j < ns.len() && ns[j] == ms[k];
                assert(ns[j].name != room_name);
            }
        }
    }
}

/// The members of a room are taken in one after the other. Each gets the first free variation of
/// a nick: of the room's own name where it is named like the room, and otherwise of its name as
/// IRC can take it. That nick is in the list of nicks as the member's, everyone else keeps what
/// they have, and nothing else of the room changes.
pub proof fn members_are_taken_in_order(
    v: RoomTargetView,
    room_name: Seq<char>,
    ms: Seq<MemberView>,
    m: MemberView,
)
    requires
        v.names.dom().finite(),
    ensures
        v.with_members(room_name, Seq::empty()) == v,
        ({
            let before = v.with_members(room_name, ms);
            let after = v.with_members(room_name, ms.push(m));
            let nick = after.members[m.user_id];
            let wanted = if m.name == room_name {
                v.target
            } else {
                sanitized(m.name)
            };
            &&& after.members.contains_key(m.user_id)
            &&& first_free(before.names.dom(), wanted, nick)
            &&& after.members == before.members.insert(m.user_id, nick)
            &&& after.names == before.names.insert(nick, m.user_id)
            &&& after.target == v.target && after.pending == v.pending
            &&& after.target_type == v.target_type
        }),
{
    let before = v.with_members(room_name, ms);
    assert(ms.push(m).drop_last() =~= ms);
    lemma_members_kept(v, room_name, ms);
    lemma_with_members(v, room_name, ms);
    let wanted = if m.name == room_name {
        v.target
    } else {
        sanitized(m.name)
    };
    some_variation_is_free(before.names.dom(), wanted);
}

/// Taking in members leaves what waits, and only finitely many nicks taken.
proof fn lemma_members_kept(v: RoomTargetView, room_name: Seq<char>, ms: Seq<MemberView>)
    requires
        v.names.dom().finite(),
    ensures
        v.with_members(room_name, ms).pending == v.pending,
        v.with_members(room_name, ms).names.dom().finite(),
    decreases ms.len(),
{
    if ms.len() > 0 {
        lemma_members_kept(v, room_name, ms.drop_last());
    }
}

/// Filling a room takes in its members, all of them, and nothing else but its kind changes.
pub proof fn filled_rooms_have_their_members(
    v: RoomTargetView,
    room_name: Seq<char>,
    ms: Seq<MemberView>,
    i: int,
)
    requires
        v.names.dom().finite(),
        0 <= i < ms.len(),
    ensures
        ({
            let w = v.filled(room_name, ms);
            let user = ms[i].user_id;
            &&& w.members.contains_key(user)
            &&& (forall|j: int| 0 <= j < ms.len() && j != i ==> (#[trigger] ms[j]).user_id != user)
                ==> w.names.contains_key(w.members[user]) && w.names[w.members[user]] == user
            &&& w.target == v.target && w.pending == v.pending
            &&& w.members == v.with_members(room_name, ms).members
            &&& w.names == v.with_members(room_name, ms).names
        }),
{
    let typed = if RoomTargetView::is_channel(room_name, ms) {
        v.of_type(RoomTargetType::LeftChan)
    } else {
        v
    };
    lemma_members_kept(typed, room_name, ms);
    lemma_with_members(typed, room_name, ms);
    lemma_same_members(v, typed, room_name, ms);
    lemma_member_is_in(v, room_name, ms, i);
}

/// Which nicks members get does not depend on what kind of room it is.
proof fn lemma_same_members(
    v: RoomTargetView,
    w: RoomTargetView,
    room_name: Seq<char>,
    ms: Seq<MemberView>,
)
    requires
        v.members == w.members,
        v.names == w.names,
        v.target == w.target,
    ensures
        v.with_members(room_name, ms).members == w.with_members(room_name, ms).members,
        v.with_members(room_name, ms).names == w.with_members(room_name, ms).names,
    decreases ms.len(),
{
    if ms.len() > 0 {
        lemma_same_members(v, w, room_name, ms.drop_last());
        lemma_with_members(v, room_name, ms.drop_last());
        lemma_with_members(w, room_name, ms.drop_last());
    }
}

proof fn lemma_member_is_in(
    v: RoomTargetView,
    room_name: Seq<char>,
    ms: Seq<MemberView>,
    i: int,
)
    requires
        v.names.dom().finite(),
        0 <= i < ms.len(),
    ensures
        ({
            let w = v.with_members(room_name, ms);
            let user = ms[i].user_id;
            &&& w.members.contains_key(user)
            &&& (forall|j: int| 0 <= j < ms.len() && j != i ==> (#[trigger] ms[j]).user_id != user)
                ==> w.names.contains_key(w.members[user]) && w.names[w.members[user]] == user
        }),
    decreases ms.len(),
{
    let head = ms.drop_last();
    let before = v.with_members(room_name, head);
    let m = ms.last();
    let user = ms[i].user_id;
    lemma_members_kept(v, room_name, head);
    let wanted = if m.name == room_name {
        before.target
    } else {
        sanitized(m.name)
    };
    joining_takes_a_free_nick(before, m.user_id, wanted);
    if i < head.len() {
        lemma_member_is_in(v, room_name, head, i);
        if forall|j: int| 0 <= j < ms.len() && j != i ==> (#[trigger] ms[j]).user_id != user {
            assert forall|j: int| 0 <= j < head.len() && j != i implies (#[trigger] head[j]).user_id
                != user by {
                assert(ms[j].user_id != user);
            }
            assert(ms[ms.len() - 1].user_id != user);
        }
    }
}

/// After a user joined, whatever kind of room it is, the user is among the members, under the
/// first free variation of the name given, or else of the user id, as IRC can take it; that nick
/// is in the list of nicks as the user's, and everyone else keeps theirs. What waits, and the
/// room's name, stay. Where the client is in the channel it sees the user join under that nick;
/// where it is not it joins itself, and the join is under way.
pub proof fn who_joined_is_a_member(v: RoomTargetView, user: Seq<char>, name: Option<Seq<char>>)
    requires
        v.names.dom().finite(),
    ensures
        ({
            let after = v.after_member_join(user, name);
            let told = v.member_join_message(user, name);
            let nick = after.members[user];
            let given = match name {
                Some(n) => n,
                None => user,
            };
            let outside = v.target_type == RoomTargetType::Query || v.target_type
                == RoomTargetType::LeftChan;
            &&& after.members.contains_key(user)
            &&& first_free(v.names.dom(), sanitized(given), nick)
            &&& !v.names.contains_key(nick)
            &&& after.members == v.members.insert(user, nick)
            &&& after.names == v.names.insert(nick, user)
            &&& after.target == v.target && after.pending == v.pending
            &&& after.target_type == if outside {
                RoomTargetType::JoiningChan
            } else {
                v.target_type
            }
            &&& told.command == CommandView::JOIN(seq!['#'] + v.target)
            &&& outside ==> told.prefix is None
            &&& !outside ==> told == message_from(Some(nick), told.command)
            &&& v.can_join() == outside
        }),
{
    reveal_strlit("#");
    assert("#"@ =~= seq!['#']);
    let given = match name {
        Some(n) => n,
        None => user,
    };
    some_variation_is_free(v.names.dom(), sanitized(given));
    assert(first_free(v.names.dom(), sanitized(given), deduped(v.names.dom(), sanitized(given))));
}

/// Who left is no member any more, and the nick is free; everyone else keeps theirs, and nothing
/// else of the room changes.
pub proof fn who_left_is_no_member(v: RoomTargetView, user: Seq<char>)
    requires
        v.members.contains_key(user),
    ensures
        ({
            let after = v.without_member(user);
            &&& !after.members.contains_key(user)
            &&& !after.names.contains_key(v.members[user])
            &&& forall|u: Seq<char>| u != user ==> (#[trigger] after.members.contains_key(u)
                <==> v.members.contains_key(u))
            &&& forall|u: Seq<char>| u != user && #[trigger] v.members.contains_key(u)
                ==> after.members[u] == v.members[u]
            &&& forall|n: Seq<char>| n != v.members[user] ==> (#[trigger] after.names.contains_key(n)
                <==> v.names.contains_key(n))
            &&& forall|n: Seq<char>| n != v.members[user] && #[trigger] v.names.contains_key(n)
                ==> after.names[n] == v.names[n]
            &&& after.target == v.target && after.target_type == v.target_type && after.pending
                == v.pending
        }),
{
}

/// A text in a room comes from the member's nick, or from the user id of one who is no member.
/// In a query the client hears it from the query itself, with who said it before the text unless
/// that is the query; in a channel it hears it from the nick, in the channel. Its kind stays.
pub proof fn texts_come_from_who_said_them(
    v: RoomTargetView,
    nick: Seq<char>,
    user: Seq<char>,
    m: TargetMessageView,
    text: Seq<char>,
)
    ensures
        v.members.contains_key(user) ==> v.nick_of(user) == v.members[user],
        !v.members.contains_key(user) ==> v.nick_of(user) == user,
        v.target_type == RoomTargetType::Query ==> v.as_irc(nick, m) == (IrcMessageView {
            message_type: m.message_type,
            from: v.target,
            target: nick,
            text: if m.from == v.target {
                m.text
            } else {
                seq!['<'] + m.from + seq!['>', ' '] + m.text
            },
        }),
        v.target_type != RoomTargetType::Query ==> v.as_irc(nick, m) == (IrcMessageView {
            message_type: m.message_type,
            from: m.from,
            target: seq!['#'] + v.target,
            text: m.text,
        }),
        v.own_text(text) == (TargetMessageView {
            message_type: IrcMessageType::Privmsg,
            from: v.nick_of(v.target),
            text,
        }),
        v.speaker(m.from) == v.as_irc(nick, m).from,
        v.chan() == seq!['#'] + v.target,
{
    reveal_strlit("#");
    reveal_strlit("<");
    reveal_strlit("> ");
    assert("#"@ =~= seq!['#']);
    assert("<"@ =~= seq!['<']);
    assert("> "@ =~= seq!['>', ' ']);
}

/// What waits goes out as it came: nothing for nothing, each message by its lines, and one after
/// the other.
pub proof fn what_waits_goes_out_in_order(
    v: RoomTargetView,
    nick: Seq<char>,
    m: TargetMessageView,
    run: Seq<TargetMessageView>,
)
    ensures
        v.delivered(nick, Seq::empty()) == Seq::<MessageView>::empty(),
        v.delivered(nick, seq![m]) == v.as_irc(nick, m).lines(),
        v.delivered(nick, run.push(m)) == v.delivered(nick, run) + v.as_irc(nick, m).lines(),
        v.line_count(nick, m) == v.as_irc(nick, m).lines().len(),
{
    lemma_delivered_one(v, nick, m);
    assert(run.push(m) =~= run + seq![m]);
    delivery_keeps_order(v, nick, run, seq![m]);
}

/// A text for a channel that is not joined waits behind all that waits; where the join is not
/// under way it begins, and the client is sent its own `JOIN` and nothing else, and otherwise
/// nothing. A text for a query or a joined channel changes nothing of the room, and the client
/// is sent all that waits and then the text.
pub proof fn texts_wait_or_go_out(v: RoomTargetView, nick: Seq<char>, m: TargetMessageView)
    ensures
        ({
            let after = v.taken_in(m);
            let sent = v.text_messages(nick, m);
            let waits = v.target_type == RoomTargetType::LeftChan || v.target_type
                == RoomTargetType::JoiningChan;
            &&& waits ==> after.pending == v.pending.push(m) && after.target_type
                == RoomTargetType::JoiningChan
            &&& waits ==> after.members == v.members && after.names == v.names && after.target
                == v.target
            &&& !waits ==> after == v
            &&& v.target_type == RoomTargetType::LeftChan ==> sent == seq![
                MessageView { prefix: None, command: CommandView::JOIN(seq!['#'] + v.target) },
            ]
            &&& v.target_type == RoomTargetType::JoiningChan ==> sent.len() == 0
            &&& !waits ==> sent == v.delivered(nick, v.pending) + v.as_irc(nick, m).lines()
            &&& v.sends_at_once() == !waits
            &&& v.queued(m).pending == v.pending.push(m)
        }),
{
    reveal_strlit("#");
    assert("#"@ =~= seq!['#']);
}

/// Ending a join leaves the room as it is where not all names could be told. Otherwise what was
/// begun of what waits is out, and the channel is joined exactly where all of it was sent.
pub proof fn joins_end_when_all_was_sent(v: RoomTargetView, nick: Seq<char>, names: nat, sent: nat)
    ensures
        ({
            let after = v.after_join_sent(nick, names, sent);
            let all = names + v.delivered(nick, v.pending).len();
            &&& sent < names ==> after == v
            &&& names <= sent < all ==> after == v.after_sent(nick, (sent - names) as nat)
            &&& sent >= all ==> after.pending.len() == 0 && after.target_type == RoomTargetType::Chan
            &&& after.members == v.members && after.names == v.names && after.target == v.target
            &&& v.after_sent(nick, sent).target_type == v.target_type
            &&& v.after_sent(nick, sent).members == v.members
            &&& v.after_sent(nick, sent).names == v.names
        }),
{
}

/// Everyone is heard but where the channel is joined: there, who has a nick that messages can
/// come from.
pub proof fn everyone_is_heard_outside(v: RoomTargetView, user: Seq<char>)
    ensures
        v.target_type != RoomTargetType::Chan ==> v.hears(user),
        v.target_type == RoomTargetType::Chan ==> (v.hears(user) <==> has_user(v.nick_of(user))),
{
}

/// A room begins with its kind and its name, and without members and messages.
pub proof fn rooms_begin_empty(kind: RoomTargetType, name: Seq<char>)
    ensures
        ({
            let v = RoomTargetView::fresh(kind, name);
            &&& v.target_type == kind && v.target == name
            &&& v.members == Map::<Seq<char>, Seq<char>>::empty()
            &&& v.names == Map::<Seq<char>, Seq<char>>::empty()
            &&& v.pending.len() == 0
        }),
{
}

/// What waits can be sent where nothing waits, and with one more message where both that message
/// and what waited before can be.
pub proof fn messages_can_be_sent_one_by_one(v: RoomTargetView, m: TargetMessageView)
    ensures
        v.pending.len() == 0 ==> v.can_flush(),
        (RoomTargetView { pending: v.pending.push(m), ..v }).can_flush() <==> v.can_flush()
            && has_user(v.speaker(m.from)),
{
    let w = RoomTargetView { pending: v.pending.push(m), ..v };
    if w.can_flush() {
        assert(w.pending[v.pending.len() as int] == m);
        assert forall|i: int| 0 <= i < v.pending.len() implies has_user(
            v.speaker(#[trigger] v.pending[i].from),
        ) by {
            assert(w.pending[i] == v.pending[i]);
            assert(has_user(w.speaker(w.pending[i].from)));
        }
    }
}

} // verus!
