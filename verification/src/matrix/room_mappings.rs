//! Which Matrix room is which query or channel on the IRC side, and who takes what the client
//! says there.

use std::collections::VecDeque;

use vstd::prelude::*;
use vstd::string::*;

use crate::ircd::chan::join_finish_messages;
use crate::ircd::client::IrcClient;
use crate::ircd::proto::{ascii_nick_has_user, has_user, messages, opt_text, IrcMessageType};
use crate::matrix::room_target::{
    deduped, lemma_clean_variation, lemma_deduped, lemma_with_members, member_views,
    members_stay_well_named, rooms_stay_well_named, sanitize, sanitized, sanitized_is_clean,
    sending_all_empties_the_queue, well_named_rooms_can_send, Delivery, JoinDelivery, Member,
    MemberView, RoomTarget, RoomTargetType, RoomTargetView, TargetMessageView,
};
use crate::name_map::{first_free, first_free_at, some_variation_is_free, variation, NameMap};
use crate::text::{cat2, same, strip_prefix, without_prefix};

verus! {

/// What kind of message the client sent to a room.
#[derive(Debug, Clone, Copy, PartialEq, Eq, Structural)]
pub enum MatrixMessageType {
    Text,
    Emote,
    Notice,
}

/// Someone who takes what the client says to a channel or a query.
pub trait MessageHandler: Sized {
    /// What is to be done with it.
    type Action;

    /// Whether it can take something.
    spec fn ready(&self) -> bool;

    /// Whether `action` is what taking a message from the client `nick` leads to, and `after`
    /// the one who took it then.
    spec fn handled(
        before: Self,
        nick: Seq<char>,
        message_type: MatrixMessageType,
        message: Seq<char>,
        after: Self,
        action: Self::Action,
    ) -> bool;

    /// Whether `after` is someone who answers in a query from now on.
    spec fn targeted(before: Self, target: RoomTargetView, after: Self) -> bool;

    /// Takes a message from the client `nick`.
    fn handle_message(&mut self, nick: &str, message_type: MatrixMessageType, message: &str) -> (r:
        Self::Action)
        requires
            old(self).ready(),
        ensures
            final(self).ready(),
            Self::handled(*old(self), nick@, message_type, message@, *final(self), r),
    ;

    /// Tells in which query to answer.
    fn set_target(&mut self, target: RoomTarget)
        requires
            old(self).ready(),
            target.wf(),
            target@.well_named(),
        ensures
            final(self).ready(),
            Self::targeted(*old(self), target@, *final(self)),
    ;
}

/// What is known of a Matrix room before its members are.
#[derive(Debug)]
pub struct RoomInfo {
    pub id: String,
    /// the name computed for display, where that could be had
    pub display_name: Option<String>,
    /// the name that was given to the room
    pub name: Option<String>,
}

/// What a [`RoomInfo`] holds.
pub struct RoomInfoView {
    pub id: Seq<char>,
    pub display_name: Option<Seq<char>>,
    pub name: Option<Seq<char>>,
}

impl View for RoomInfo {
    type V = RoomInfoView;

    open spec fn view(&self) -> RoomInfoView {
        RoomInfoView {
            id: self.id@,
            display_name: opt_text(self.display_name),
            name: opt_text(self.name),
        }
    }
}

impl RoomInfoView {
    /// What the room is called: its display name, or else its given name, or else its id.
    pub open spec fn called(self) -> Seq<char> {
        match (self.display_name, self.name) {
            (Some(n), _) => n,
            (None, Some(n)) => n,
            (None, None) => self.id,
        }
    }
}

/// What a room is called.
pub fn room_name(room: &RoomInfo) -> (r: String)
    ensures
        r@ == room@.called(),
{
    if let Some(name) = &room.display_name {
        return name.clone();
    }
    if let Some(name) = &room.name {
        return name.clone();
    }
    room.id.clone()
}

/// Where a message from Matrix goes: to a room, or to the bridge's own query.
#[derive(Debug)]
pub enum TargetRef {
    /// The room with this id.
    Room(String),
    /// The query in which the bridge itself speaks.
    Matrirc,
}

/// What a [`TargetRef`] holds.
pub enum TargetRefView {
    Room(Seq<char>),
    Matrirc,
}

impl View for TargetRef {
    type V = TargetRefView;

    open spec fn view(&self) -> TargetRefView {
        match *self {
            TargetRef::Room(id) => TargetRefView::Room(id@),
            TargetRef::Matrirc => TargetRefView::Matrirc,
        }
    }
}

/// The outcome of asking for the members of a room.
pub open spec fn members_view(members: Result<Vec<Member>, String>) -> Result<Seq<MemberView>, Seq<char>> {
    match members {
        Ok(ms) => Ok(member_views(ms@)),
        Err(e) => Err(e@),
    }
}

/// A joined room, as it is met when all rooms are gone through.
pub struct SyncRoom<H> {
    pub room: RoomInfo,
    /// whether another room has taken its place
    pub tombstoned: bool,
    pub members: Result<Vec<Member>, String>,
    pub handler: H,
}

/// What a [`SyncRoom`] holds.
pub struct SyncRoomView<H> {
    pub room: RoomInfoView,
    pub tombstoned: bool,
    pub members: Result<Seq<MemberView>, Seq<char>>,
    pub handler: H,
}

impl<H> View for SyncRoom<H> {
    type V = SyncRoomView<H>;

    open spec fn view(&self) -> SyncRoomView<H> {
        SyncRoomView {
            room: self.room@,
            tombstoned: self.tombstoned,
            members: members_view(self.members),
            handler: self.handler,
        }
    }
}

/// What the rooms of a session hold.
pub open spec fn sync_views<H>(rooms: Seq<SyncRoom<H>>) -> Seq<SyncRoomView<H>> {
    rooms.map_values(|r: SyncRoom<H>| r@)
}

/// The room that something happened in.
pub struct EventRoom<H> {
    /// whether the user is in the room
    pub joined: bool,
    pub room: RoomInfo,
    pub members: Result<Vec<Member>, String>,
    pub handler: H,
}

/// What an [`EventRoom`] holds.
pub struct EventRoomView<H> {
    pub joined: bool,
    pub room: RoomInfoView,
    pub members: Result<Seq<MemberView>, Seq<char>>,
    pub handler: H,
}

impl<H> View for EventRoom<H> {
    type V = EventRoomView<H>;

    open spec fn view(&self) -> EventRoomView<H> {
        EventRoomView {
            joined: self.joined,
            room: self.room@,
            members: members_view(self.members),
            handler: self.handler,
        }
    }
}

/// What the client is to be sent, and for which room or query.
pub struct Told {
    pub target: TargetRef,
    pub delivery: Delivery,
}

/// The room mappings of a session, in both directions.
pub struct Mappings<H> {
    /// matrix room id to either chan or query
    rooms: NameMap<RoomTarget>,
    /// chan/query name to something that'll eat our message.
    ///
    /// Note that since we might want to promote/demote chans to query,
    /// targets does NOT include the hash: foobar = #foobar as far as
    /// dedup and received (irc -> matrix) messages go
    targets: NameMap<H>,
    pub irc: IrcClient,
    mt: RoomTarget,
}

/// What [`Mappings`] hold.
#[verifier::ext_equal]
pub struct MappingsView<H> {
    /// From room ids to the rooms as the client knows them.
    pub rooms: Map<Seq<char>, RoomTargetView>,
    /// From names on the IRC side, without a `#`, to who takes what is said there.
    pub targets: Map<Seq<char>, H>,
    /// The query in which the bridge itself speaks.
    pub mt: RoomTargetView,
    /// The nick of the client.
    pub nick: Seq<char>,
    /// The user name of the client.
    pub user: Seq<char>,
}

/// Whether `names` lists each of `nicks` once, and nothing else.
pub open spec fn lists_once(names: Seq<Seq<char>>, nicks: Set<Seq<char>>) -> bool {
    &&& names.no_duplicates()
    &&& forall|n: Seq<char>| names.contains(n) <==> nicks.contains(n)
}

/// What a map with rooms for values holds.
pub open spec fn room_map(m: Map<Seq<char>, RoomTarget>) -> Map<Seq<char>, RoomTargetView> {
    m.map_values(|t: RoomTarget| t@)
}

impl<H> MappingsView<H> {
    /// The name on the IRC side that a room would get.
    pub open spec fn free_name(self, room: RoomInfoView) -> Seq<char> {
        deduped(self.targets.dom(), sanitized(room.called()))
    }

    /// A room that is met for the first time, with its members where they could be had.
    pub open spec fn new_room(
        self,
        room: RoomInfoView,
        members: Result<Seq<MemberView>, Seq<char>>,
    ) -> RoomTargetView {
        let query = RoomTargetView::fresh(RoomTargetType::Query, self.free_name(room));
        match members {
            Ok(ms) => if ms.len() == 0 {
                query
            } else {
                query.filled(sanitized(room.called()), ms)
            },
            Err(_) => query,
        }
    }

    /// After a room was asked for: one that is not known yet is added, also where its members
    /// could not be had.
    pub open spec fn with_room(
        self,
        room: RoomInfoView,
        members: Result<Seq<MemberView>, Seq<char>>,
        handler: H,
    ) -> Self {
        if self.rooms.contains_key(room.id) {
            self
        } else {
            MappingsView {
                rooms: self.rooms.insert(room.id, self.new_room(room, members)),
                targets: self.targets.insert(self.free_name(room), handler),
                ..self
            }
        }
    }

    /// Why a room that was asked for cannot be used, if so: it is new, and has no members or
    /// they could not be had.
    pub open spec fn room_error(
        self,
        room: RoomInfoView,
        members: Result<Seq<MemberView>, Seq<char>>,
    ) -> Option<Seq<char>> {
        if self.rooms.contains_key(room.id) {
            None
        } else {
            match members {
                Ok(ms) => if ms.len() == 0 {
                    Some("Message in empty room "@ + sanitized(room.called()) + "?"@)
                } else {
                    None
                },
                Err(e) => Some(e),
            }
        }
    }

    /// With someone who takes messages under the first free variation of a name.
    pub open spec fn with_handler(self, candidate: Seq<char>, handler: H) -> Self {
        MappingsView {
            targets: self.targets.insert(deduped(self.targets.dom(), candidate), handler),
            ..self
        }
    }

    /// With a name freed.
    pub open spec fn without_handler(self, name: Seq<char>) -> Self {
        MappingsView { targets: self.targets.remove(name), ..self }
    }

    /// With an error that waits in the bridge's own query.
    pub open spec fn with_error(self, error: Seq<char>) -> Self {
        MappingsView {
            mt: self.mt.queued(
                TargetMessageView {
                    message_type: IrcMessageType::Notice,
                    from: "matrirc"@,
                    text: error,
                },
            ),
            ..self
        }
    }

    /// Where the messages of a room go.
    pub open spec fn room_ref(
        self,
        room: RoomInfoView,
        members: Result<Seq<MemberView>, Seq<char>>,
    ) -> TargetRefView {
        if self.room_error(room, members) is Some {
            TargetRefView::Matrirc
        } else {
            TargetRefView::Room(room.id)
        }
    }

    /// After the target of a room was asked for: the room is known, and an error waits in the
    /// bridge's own query where it cannot be used.
    pub open spec fn resolved(
        self,
        room: RoomInfoView,
        members: Result<Seq<MemberView>, Seq<char>>,
        handler: H,
    ) -> Self {
        let added = self.with_room(room, members, handler);
        match self.room_error(room, members) {
            None => added,
            Some(e) => added.with_error("Could not find or create target: "@ + e),
        }
    }

    /// The room or query to which what happened in a room is told.
    pub open spec fn heard_in(self, at: EventRoomView<H>) -> RoomTargetView {
        self.resolved(at.room, at.members, at.handler).target(self.room_ref(at.room, at.members))
    }

    /// With what happened in a room taken in there.
    pub open spec fn told(self, at: EventRoomView<H>, v: RoomTargetView) -> Self {
        self.resolved(at.room, at.members, at.handler).with_target(
            self.room_ref(at.room, at.members),
            v,
        )
    }

    /// Whether what a user says in a room can be taken in: it can but where the channel is
    /// joined and no message can come from the user's nick.
    pub open spec fn can_hear(self, at: EventRoomView<H>, sender: Seq<char>) -> bool {
        self.heard_in(at).target_type != RoomTargetType::Chan || has_user(
            self.heard_in(at).nick_of(sender),
        )
    }

    /// Where a reference leads, a text from a user as it is taken in.
    pub open spec fn said_at(
        self,
        t: TargetRefView,
        message_type: IrcMessageType,
        sender: Seq<char>,
        text: Seq<char>,
    ) -> TargetMessageView {
        TargetMessageView { message_type, from: self.target(t).nick_of(sender), text }
    }

    /// After a text from a user came in where a reference leads, before anything was sent.
    pub open spec fn after_text_at(
        self,
        t: TargetRefView,
        message_type: IrcMessageType,
        sender: Seq<char>,
        text: Seq<char>,
    ) -> Self {
        self.with_target(
            t,
            self.target(t).taken_in(self.said_at(t, message_type, sender, text)),
        )
    }

    /// Whether `r` is what the client is to be sent for a text from a user where a reference
    /// leads.
    pub open spec fn tells_at(
        self,
        t: TargetRefView,
        message_type: IrcMessageType,
        sender: Seq<char>,
        text: Seq<char>,
        r: Told,
    ) -> bool {
        let m = self.said_at(t, message_type, sender, text);
        &&& r.target@ == t
        &&& messages(r.delivery.messages@) == self.target(t).text_messages(self.nick, m)
        &&& r.delivery.joining == (self.target(t).target_type == RoomTargetType::LeftChan)
        &&& r.delivery.flushes == self.target(t).sends_at_once()
    }

    /// A text from a user of a room, as the room takes it in.
    pub open spec fn said(
        self,
        at: EventRoomView<H>,
        message_type: IrcMessageType,
        sender: Seq<char>,
        text: Seq<char>,
    ) -> TargetMessageView {
        TargetMessageView { message_type, from: self.heard_in(at).nick_of(sender), text }
    }

    /// After a text from a user of a room came in, before anything was sent.
    pub open spec fn after_event(
        self,
        at: EventRoomView<H>,
        message_type: IrcMessageType,
        sender: Seq<char>,
        text: Seq<char>,
    ) -> Self {
        self.told(
            at,
            self.heard_in(at).taken_in(self.said(at, message_type, sender, text)),
        )
    }

    /// Whether `r` is what the client is to be sent for a text from a user of a room.
    pub open spec fn tells(
        self,
        at: EventRoomView<H>,
        message_type: IrcMessageType,
        sender: Seq<char>,
        text: Seq<char>,
        r: Told,
    ) -> bool {
        let heard = self.heard_in(at);
        let m = self.said(at, message_type, sender, text);
        &&& r.target@ == self.room_ref(at.room, at.members)
        &&& messages(r.delivery.messages@) == heard.text_messages(self.nick, m)
        &&& r.delivery.joining == (heard.target_type == RoomTargetType::LeftChan)
        &&& r.delivery.flushes == heard.sends_at_once()
    }

    /// After a text from a room's own name came in, before anything was sent.
    pub open spec fn after_own(self, at: EventRoomView<H>, text: Seq<char>) -> Self {
        let heard = self.heard_in(at);
        self.told(at, heard.taken_in(heard.own_text(text)))
    }

    /// Whether `r` is what the client is to be sent for a text from a room's own name.
    pub open spec fn tells_own(self, at: EventRoomView<H>, text: Seq<char>, r: Told) -> bool {
        let heard = self.heard_in(at);
        &&& r.target@ == self.room_ref(at.room, at.members)
        &&& messages(r.delivery.messages@) == heard.text_messages(self.nick, heard.own_text(text))
        &&& r.delivery.joining == (heard.target_type == RoomTargetType::LeftChan)
        &&& r.delivery.flushes == heard.sends_at_once()
    }

    /// After what waited where a reference leads was sent, as far as `sent` messages to the
    /// client.
    pub open spec fn after_sent_at(self, t: TargetRefView, sent: nat) -> Self {
        self.with_target(t, self.target(t).after_sent(self.nick, sent))
    }

    /// Whether messages can come from every room and every member, and each message that waits
    /// for no join can be sent.
    pub open spec fn well_named(self) -> bool {
        &&& self.mt.well_named()
        &&& forall|id: Seq<char>| #[trigger] self.rooms.contains_key(id) ==> self.rooms[id].well_named()
    }

    /// Whether a reference leads somewhere.
    pub open spec fn has_target(self, t: TargetRefView) -> bool {
        match t {
            TargetRefView::Room(id) => self.rooms.contains_key(id),
            TargetRefView::Matrirc => true,
        }
    }

    /// The room or the query that a reference leads to.
    pub open spec fn target(self, t: TargetRefView) -> RoomTargetView {
        match t {
            TargetRefView::Room(id) => self.rooms[id],
            TargetRefView::Matrirc => self.mt,
        }
    }

    /// With another room or query where a reference leads.
    pub open spec fn with_target(self, t: TargetRefView, v: RoomTargetView) -> Self {
        match t {
            TargetRefView::Room(id) => MappingsView { rooms: self.rooms.insert(id, v), ..self },
            TargetRefView::Matrirc => MappingsView { mt: v, ..self },
        }
    }

    /// The name under which what the client says to `name` is looked up.
    pub open spec fn looked_up(name: Seq<char>) -> Seq<char> {
        match without_prefix(name, "#"@) {
            Some(rest) => rest,
            None => name,
        }
    }

    /// After all of `rooms` were gone through: those that are not tombstoned are added, up to
    /// the first that cannot be used.
    pub open spec fn synced(self, rooms: Seq<SyncRoomView<H>>) -> Self
        decreases rooms.len(),
    {
        if rooms.len() == 0 {
            self
        } else {
            let r = rooms[0];
            if r.tombstoned {
                self.synced(rooms.drop_first())
            } else {
                let next = self.with_room(r.room, r.members, r.handler);
                if self.room_error(r.room, r.members) is Some {
                    next
                } else {
                    next.synced(rooms.drop_first())
                }
            }
        }
    }

    /// Why going through all of `rooms` stopped before the end, if it did.
    pub open spec fn sync_error(self, rooms: Seq<SyncRoomView<H>>) -> Option<Seq<char>>
        decreases rooms.len(),
    {
        if rooms.len() == 0 {
            None
        } else {
            let r = rooms[0];
            if r.tombstoned {
                self.sync_error(rooms.drop_first())
            } else if self.room_error(r.room, r.members) is Some {
                self.room_error(r.room, r.members)
            } else {
                self.with_room(r.room, r.members, r.handler).sync_error(rooms.drop_first())
            }
        }
    }

    /// Whether `r` is what ends the joining of the channel where a reference leads: the names of
    /// those who are there, each once, and all that waited.
    pub open spec fn joins_with(self, t: TargetRefView, r: JoinDelivery) -> bool {
        let room = self.target(t);
        exists|names: Seq<Seq<char>>|
            {
                &&& #[trigger] lists_once(names, room.names.dom())
                &&& messages(r.messages@) == join_finish_messages(self.nick, room.chan(), names)
                    + room.delivered(self.nick, room.pending)
                &&& r.names == join_finish_messages(self.nick, room.chan(), names).len()
            }
    }

    /// Each room has a name of its own on the IRC side, and someone takes what is said there.
    pub open spec fn rooms_apart(self) -> bool {
        &&& forall|a: Seq<char>| #[trigger]
            self.rooms.contains_key(a) ==> self.targets.contains_key(self.rooms[a].target)
        &&& forall|a: Seq<char>, b: Seq<char>|
            #![trigger self.rooms.contains_key(a), self.rooms.contains_key(b)]
            self.rooms.contains_key(a) && self.rooms.contains_key(b) && a != b
                ==> self.rooms[a].target != self.rooms[b].target
    }
}

impl<H> View for Mappings<H> {
    type V = MappingsView<H>;

    closed spec fn view(&self) -> MappingsView<H> {
        MappingsView {
            rooms: room_map(self.rooms@),
            targets: self.targets@,
            mt: self.mt@,
            nick: self.irc.nick@,
            user: self.irc.user@,
        }
    }
}

proof fn lemma_room_map_insert(m: Map<Seq<char>, RoomTarget>, k: Seq<char>, t: RoomTarget)
    ensures
        room_map(m.insert(k, t)) == room_map(m).insert(k, t@),
{
    assert(room_map(m.insert(k, t)) =~= room_map(m).insert(k, t@));
}

impl<H> Mappings<H> {
    /// No room and no name occurs twice, and each room is in order.
    pub closed spec fn wf(self) -> bool {
        &&& self.rooms.wf()
        &&& self.targets.wf()
        &&& self.mt.wf()
        &&& forall|id: Seq<char>| #[trigger] self.rooms@.contains_key(id) ==> self.rooms@[id].wf()
    }

    /// Only finitely many names are taken.
    pub proof fn names_are_finite(self)
        requires
            self.wf(),
        ensures
            self@.targets.dom().finite(),
            self@.rooms.dom().finite(),
    {
        self.targets.lemma_len();
        self.rooms.lemma_len();
        assert(self@.rooms.dom() =~= self.rooms@.dom());
    }

    /// No rooms yet.
    pub fn new(irc: IrcClient) -> (r: Self)
        ensures
            r.wf(),
            r@ == (MappingsView {
                rooms: Map::<Seq<char>, RoomTargetView>::empty(),
                targets: Map::<Seq<char>, H>::empty(),
                mt: RoomTargetView::fresh(RoomTargetType::Query, "matrirc"@),
                nick: irc.nick@,
                user: irc.user@,
            }),
            r@.well_named(),
    {
        proof {
            reveal_strlit("matrirc");
            ascii_nick_has_user("matrirc"@);
        }
        let r = Mappings {
            rooms: NameMap::new(),
            targets: NameMap::new(),
            irc,
            mt: RoomTarget::query("matrirc"),
        };
        assert(r@.rooms =~= Map::<Seq<char>, RoomTargetView>::empty());
        r
    }

    /// The client that the mappings are for.
    pub fn client(&self) -> (r: &IrcClient)
        ensures
            r.nick@ == self@.nick,
            r.user@ == self@.user,
    {
        &self.irc
    }

    /// Where a room's messages go, if the room is known.
    pub fn known_room(&self, id: &str) -> (r: Option<TargetRef>)
        requires
            self.wf(),
        ensures
            (match r {
                Some(t) => self@.rooms.contains_key(id@) && t@ == TargetRefView::Room(id@),
                None => !self@.rooms.contains_key(id@),
            }),
    {
        if self.rooms.contains(id) {
            Some(TargetRef::Room(id.to_owned()))
        } else {
            None
        }
    }

    /// The room or query that a reference leads to, to be changed in place.
    pub fn target_mut(&mut self, t: &TargetRef) -> (r: &mut RoomTarget)
        requires
            old(self).wf(),
            old(self)@.has_target(t@),
        ensures
            r.wf(),
            r@ == old(self)@.target(t@),
            final(self)@ == old(self)@.with_target(t@, final(r)@),
            final(r).wf() ==> final(self).wf(),
    {
        match t {
            TargetRef::Matrirc => &mut self.mt,
            TargetRef::Room(id) => {
                match self.rooms.get_mut(id) {
                    Some(r) => r,
                    None => &mut self.mt,
                }
            },
        }
    }

    /// Where a room's messages go. A room that is not known yet gets the first free name, and
    /// who takes what the client says there; it is a query until its members are known. An
    /// error is given where it has none or they could not be had, though the room is known
    /// from then on.
    pub fn try_room_target(
        &mut self,
        room: &RoomInfo,
        members: Result<Vec<Member>, String>,
        handler: H,
    ) -> (r: Result<TargetRef, String>)
        requires
            old(self).wf(),
        ensures
            final(self).wf(),
            final(self)@ == old(self)@.with_room(room@, members_view(members), handler),
            (match r {
                Ok(t) => {
                    &&& old(self)@.room_error(room@, members_view(members)) is None
                    &&& t@ == TargetRefView::Room(room@.id)
                },
                Err(e) => old(self)@.room_error(room@, members_view(members)) == Some(e@),
            }),
            old(self)@.well_named() ==> final(self)@.well_named(),
    {
        proof {
            self.names_are_finite();
            if self@.well_named() {
                adding_keeps_well_named(self@, room@, members_view(members), handler);
            }
        }
        // happy case first
        if let Some(target) = self.known_room(&room.id) {
            return Ok(target);
        }
        let ghost before = *self;
        let desired_name = sanitize(&room_name(room));
        // find unique irc name
        let name = self.targets.insert_deduped(&desired_name, handler);
        proof {
            lemma_deduped(before@.targets.dom(), desired_name@, name@);
        }
        // create a query anyway, we'll promote it when we get members
        let mut target = RoomTarget::query(&name);
        let failure: Option<String> = match members {
            Ok(members) => match target.fill_room_members(&members, &desired_name) {
                Ok(()) => None,
                Err(e) => Some(e),
            },
            Err(e) => Some(e),
        };
        let id: String = room.id.clone();
        proof {
            lemma_room_map_insert(before.rooms@, id@, target);
        }
        self.rooms.insert(id, target);
        assert(self@ =~= before@.with_room(room@, members_view(members), handler));
        match failure {
            None => Ok(TargetRef::Room(room.id.clone())),
            Some(e) => Err(e),
        }
    }

    /// Where a room's messages go. Where the room cannot be used, that is the bridge's own
    /// query, with the error waiting there.
    pub fn room_target(
        &mut self,
        room: &RoomInfo,
        members: Result<Vec<Member>, String>,
        handler: H,
    ) -> (r: TargetRef)
        requires
            old(self).wf(),
        ensures
            final(self).wf(),
            final(self)@.has_target(r@),
            final(self)@ == old(self)@.resolved(room@, members_view(members), handler),
            r@ == old(self)@.room_ref(room@, members_view(members)),
            old(self)@.well_named() ==> final(self)@.well_named(),
    {
        proof {
            self.names_are_finite();
            if self@.well_named() {
                resolving_keeps_well_named(self@, room@, members_view(members), handler);
            }
        }
        match self.try_room_target(room, members, handler) {
            Ok(target) => target,
            Err(e) => {
                // return error into matrirc channel instead
                self.mt.set_error(&cat2("Could not find or create target: ", &e));
                TargetRef::Matrirc
            },
        }
    }

    /// Has the bridge say something to the client in its own query.
    pub fn matrirc_query(&mut self, message: &str) -> (r: Delivery)
        requires
            old(self).wf(),
            old(self)@.well_named(),
        ensures
            final(self).wf(),
            final(self)@.well_named(),
            ({
                let m = old(self)@.mt.own_text(message@);
                &&& final(self)@ == old(self)@.with_target(
                    TargetRefView::Matrirc,
                    old(self)@.mt.taken_in(m),
                )
                &&& messages(r.messages@) == old(self)@.mt.text_messages(old(self)@.nick, m)
                &&& r.joining == (old(self)@.mt.target_type == RoomTargetType::LeftChan)
                &&& r.flushes == old(self)@.mt.sends_at_once()
            }),
    {
        proof {
            let mt = self@.mt;
            let m = mt.own_text(message@);
            self.mt.nicks_are_finite();
            well_named_rooms_can_send(mt, mt.target);
            rooms_stay_well_named(
                mt,
                m,
                mt.target,
                m.from,
                RoomTargetType::Query,
                Seq::empty(),
                0,
                0,
            );
            lemma_with_target_well_named(self@, TargetRefView::Matrirc, mt.taken_in(m));
        }
        self.mt.send_simple_query(&self.irc.nick, message)
    }

    /// Gives someone who takes messages the first free variation of a name, and the query in
    /// which to answer under that name.
    pub fn insert_deduped(&mut self, candidate: &str, target: H) -> (r: RoomTarget)
        requires
            old(self).wf(),
        ensures
            final(self).wf(),
            r.wf(),
            ({
                let name = deduped(old(self)@.targets.dom(), candidate@);
                &&& r@ == RoomTargetView::fresh(RoomTargetType::Query, name)
                &&& final(self)@ == old(self)@.with_handler(candidate@, target)
                &&& has_user(candidate@) ==> r@.well_named()
            }),
            old(self)@.well_named() ==> final(self)@.well_named(),
    {
        let ghost before = *self;
        let name = self.targets.insert_deduped(candidate, target);
        proof {
            lemma_deduped(before@.targets.dom(), candidate@, name@);
            if has_user(candidate@) {
                lemma_clean_variation(before@.targets.dom(), candidate@, name@);
            }
        }
        RoomTarget::query(&name)
    }

    /// Frees a name: nobody takes what the client says there.
    pub fn remove_target(&mut self, name: &str)
        requires
            old(self).wf(),
        ensures
            final(self).wf(),
            final(self)@ == old(self)@.without_handler(name@),
            old(self)@.well_named() ==> final(self)@.well_named(),
    {
        let _ = self.targets.remove(name);
    }

    /// Who takes what the client says to a channel or a query.
    pub fn to_matrix(&self, name: &str) -> (r: Result<&H, String>)
        requires
            self.wf(),
        ensures
            ({
                let key = MappingsView::<H>::looked_up(name@);
                match r {
                    Ok(h) => self@.targets.contains_key(key) && *h == self@.targets[key],
                    Err(e) => !self@.targets.contains_key(key) && e@ == "No such target "@ + key,
                }
            }),
    {
        let name = match strip_prefix(name, "#") {
            Some(suffix) => suffix,
            None => name.to_owned(),
        };
        match self.targets.get(&name) {
            Some(target) => Ok(target),
            None => Err(cat2("No such target ", &name)),
        }
    }

    /// Goes through the joined rooms of a session and makes them known, but for those that
    /// another room has taken the place of. It stops at the first that cannot be used; at the
    /// end the client is told.
    pub fn sync_rooms(&mut self, rooms: VecDeque<SyncRoom<H>>) -> (r: Result<Delivery, String>)
        requires
            old(self).wf(),
            old(self)@.well_named(),
        ensures
            final(self).wf(),
            final(self)@.well_named(),
            ({
                let views = sync_views(rooms@);
                let synced = old(self)@.synced(views);
                match r {
                    Ok(d) => {
                        let m = old(self)@.mt.own_text("Finished initial room sync"@);
                        &&& old(self)@.sync_error(views) is None
                        &&& final(self)@ == synced.with_target(
                            TargetRefView::Matrirc,
                            old(self)@.mt.taken_in(m),
                        )
                        &&& messages(d.messages@) == old(self)@.mt.text_messages(old(self)@.nick, m)
                        &&& d.joining == (old(self)@.mt.target_type == RoomTargetType::LeftChan)
                        &&& d.flushes == old(self)@.mt.sends_at_once()
                    },
                    Err(e) => {
                        &&& old(self)@.sync_error(views) == Some(e@)
                        &&& final(self)@ == synced
                    },
                }
            }),
    {
        let mut rest = rooms;
        let ghost views = sync_views(rooms@);
        while rest.len() > 0
            invariant
                self.wf(),
                views == sync_views(rooms@),
                self@.well_named(),
                self@.mt == old(self)@.mt,
                self@.nick == old(self)@.nick,
                self@.synced(sync_views(rest@)) == old(self)@.synced(views),
                self@.sync_error(sync_views(rest@)) == old(self)@.sync_error(views),
            decreases rest@.len(),
        {
            let ghost left = rest@;
            let ghost before = self@;
            match rest.pop_front() {
                None => {},
                Some(joined) => {
                    assert(sync_views(left)[0] == joined@);
                    assert(sync_views(left).drop_first() =~= sync_views(rest@));
                    if !joined.tombstoned {
                        if let Err(e) = self.try_room_target(
                            &joined.room,
                            joined.members,
                            joined.handler,
                        ) {
                            assert(before.sync_error(sync_views(left)) == Some(e@));
                            assert(before.synced(sync_views(left)) == self@);
                            return Err(e);
                        }
                    }
                },
            }
        }
        assert(sync_views(rest@).len() == 0);
        Ok(self.matrirc_query("Finished initial room sync"))
    }

    /// Takes out of a queue what was sent of it, when `sent` of the messages to the client of
    /// which it was the beginning could be sent: what was not begun stays.
    pub fn sent(&mut self, t: &TargetRef, sent: usize)
        requires
            old(self).wf(),
            old(self)@.well_named(),
            old(self)@.has_target(t@),
        ensures
            final(self).wf(),
            final(self)@.well_named(),
            final(self)@ == old(self)@.after_sent_at(t@, sent as nat),
    {
        let ghost before = self@;
        let nick = self.irc.nick.clone();
        let room = self.target_mut(t);
        proof {
            let v = before.target(t@);
            lemma_target_well_named(before, t@);
            room.nicks_are_finite();
            rooms_stay_well_named(
                v,
                v.own_text(Seq::empty()),
                v.target,
                v.target,
                RoomTargetType::Query,
                nick@,
                0,
                sent as nat,
            );
            lemma_with_target_well_named(before, t@, v.after_sent(nick@, sent as nat));
        }
        room.sent(&nick, sent);
    }

    /// Whether what waits where a reference leads can be sent.
    pub fn can_complete_join(&self, t: &TargetRef) -> (r: bool)
        requires
            self.wf(),
            self@.has_target(t@),
        ensures
            r == self@.target(t@).can_flush(),
    {
        match t {
            TargetRef::Matrirc => self.mt.can_flush(),
            TargetRef::Room(id) => match self.rooms.get(id) {
                Some(room) => room.can_flush(),
                None => false,
            },
        }
    }

    /// What ends the joining of a room's channel: the client is told who is there, each nick
    /// once, and is sent the messages that waited. [`Mappings::finish_join`] is to be told how
    /// much of it was sent.
    pub fn complete_join(&self, t: &TargetRef) -> (r: JoinDelivery)
        requires
            self.wf(),
            self@.has_target(t@),
            self@.target(t@).can_flush(),
        ensures
            self@.joins_with(t@, r),
    {
        match t {
            TargetRef::Matrirc => {
                proof {
                    self.mt.every_nick_is_listed_once();
                    assert(lists_once(self.mt.listed(), self.mt@.names.dom()));
                }
                self.mt.complete_join(&self.irc.nick)
            },
            TargetRef::Room(id) => match self.rooms.get(id) {
                Some(room) => {
                    proof {
                        room.every_nick_is_listed_once();
                        assert(lists_once(room.listed(), room@.names.dom()));
                    }
                    room.complete_join(&self.irc.nick)
                },
                None => JoinDelivery { messages: Vec::new(), names: 0 },
            },
        }
    }

    /// Ends the joining of a room's channel, when `sent` of the messages that
    /// [`Mappings::complete_join`] gave could be sent, the first `names` of which tell who is
    /// there.
    pub fn finish_join(&mut self, t: &TargetRef, names: usize, sent: usize)
        requires
            old(self).wf(),
            old(self)@.well_named(),
            old(self)@.has_target(t@),
        ensures
            final(self).wf(),
            final(self)@.well_named(),
            final(self)@ == old(self)@.with_target(
                t@,
                old(self)@.target(t@).after_join_sent(old(self)@.nick, names as nat, sent as nat),
            ),
    {
        let ghost before = self@;
        let nick = self.irc.nick.clone();
        let room = self.target_mut(t);
        proof {
            let v = before.target(t@);
            lemma_target_well_named(before, t@);
            room.nicks_are_finite();
            rooms_stay_well_named(
                v,
                v.own_text(Seq::empty()),
                v.target,
                v.target,
                RoomTargetType::Query,
                nick@,
                names as nat,
                sent as nat,
            );
            lemma_with_target_well_named(
                before,
                t@,
                v.after_join_sent(nick@, names as nat, sent as nat),
            );
        }
        room.finish_join(&nick, names, sent);
    }

    /// Tells the client a text from a room's own name.
    pub fn tell_own(&mut self, at: EventRoom<H>, text: &str) -> (r: Told)
        requires
            old(self).wf(),
            old(self)@.well_named(),
        ensures
            final(self).wf(),
            final(self)@.well_named(),
            final(self)@ == old(self)@.after_own(at@, text@),
            old(self)@.tells_own(at@, text@, r),
    {
        proof {
            self.names_are_finite();
            resolving_keeps_well_named(self@, at.room@, at@.members, at.handler);
        }
        let ghost heard = self@.heard_in(at@);
        let target = self.room_target(&at.room, at.members, at.handler);
        let ghost resolved = self@;
        let nick = self.irc.nick.clone();
        let room = self.target_mut(&target);
        proof {
            lemma_target_well_named(resolved, target@);
            well_named_rooms_can_send(heard, heard.target);
            room.nicks_are_finite();
            let m = heard.own_text(text@);
            rooms_stay_well_named(
                heard,
                m,
                heard.target,
                m.from,
                RoomTargetType::Query,
                nick@,
                0,
                0,
            );
            lemma_with_target_well_named(resolved, target@, heard.taken_in(m));
        }
        let delivery = room.send_simple_query(&nick, text);
        Told { target, delivery }
    }

    /// Whether what a user says in a room can be taken in.
    pub fn can_hear(&self, at: &EventRoom<H>, sender: &str) -> (r: bool)
        requires
            self.wf(),
        ensures
            r == self@.can_hear(at@, sender@),
    {
        match self.rooms.get(&at.room.id) {
            Some(room) => {
                assert(self@.heard_in(at@) == room@);
                room.hears(sender)
            },
            None => match &at.members {
                Ok(members) => {
                    if members.len() == 0 {
                        return self.mt.hears(sender);
                    }
                    proof {
                        // nobody has joined the channel of a room that was not known
                        lemma_new_room(self@, at.room@, at@.members);
                    }
                    true
                },
                Err(_) => self.mt.hears(sender),
            },
        }
    }

    /// Whether what a user says can be taken in where a reference leads.
    pub fn can_hear_at(&self, t: &TargetRef, sender: &str) -> (r: bool)
        requires
            self.wf(),
            self@.has_target(t@),
        ensures
            r == self@.target(t@).hears(sender@),
    {
        match t {
            TargetRef::Matrirc => self.mt.hears(sender),
            TargetRef::Room(id) => match self.rooms.get(id) {
                Some(room) => room.hears(sender),
                None => false,
            },
        }
    }

    /// Tells the client a text from a user where a reference leads.
    pub fn tell_at(
        &mut self,
        target: TargetRef,
        message_type: IrcMessageType,
        sender: &str,
        text: &str,
    ) -> (r: Told)
        requires
            old(self).wf(),
            old(self)@.well_named(),
            old(self)@.has_target(target@),
            old(self)@.target(target@).hears(sender@),
        ensures
            final(self).wf(),
            final(self)@.well_named(),
            final(self)@ == old(self)@.after_text_at(target@, message_type, sender@, text@),
            old(self)@.tells_at(target@, message_type, sender@, text@, r),
    {
        let ghost before = self@;
        let nick = self.irc.nick.clone();
        let room = self.target_mut(&target);
        proof {
            let v = before.target(target@);
            let m = before.said_at(target@, message_type, sender@, text@);
            lemma_target_well_named(before, target@);
            room.nicks_are_finite();
            well_named_rooms_can_send(v, sender@);
            rooms_stay_well_named(v, m, v.target, v.target, RoomTargetType::Query, nick@, 0, 0);
            lemma_with_target_well_named(before, target@, v.taken_in(m));
        }
        let delivery = room.send_text_to_irc(&nick, message_type, sender, text);
        Told { target, delivery }
    }

    /// Tells the client a text from a user of a room.
    pub fn tell(
        &mut self,
        at: EventRoom<H>,
        message_type: IrcMessageType,
        sender: &str,
        text: &str,
    ) -> (r: Told)
        requires
            old(self).wf(),
            old(self)@.well_named(),
            old(self)@.can_hear(at@, sender@),
        ensures
            final(self).wf(),
            final(self)@.well_named(),
            final(self)@ == old(self)@.after_event(at@, message_type, sender@, text@),
            old(self)@.tells(at@, message_type, sender@, text@, r),
    {
        let target = self.room_target(&at.room, at.members, at.handler);
        self.tell_at(target, message_type, sender, text)
    }
}

proof fn lemma_free_name<H>(v: MappingsView<H>, room: RoomInfoView)
    requires
        v.targets.dom().finite(),
    ensures
        first_free(v.targets.dom(), sanitized(room.called()), v.free_name(room)),
        !v.targets.contains_key(v.free_name(room)),
{
    some_variation_is_free(v.targets.dom(), sanitized(room.called()));
}

/// A new room's members do not change its name, and its channel is not joined.
proof fn lemma_new_room<H>(
    v: MappingsView<H>,
    room: RoomInfoView,
    members: Result<Seq<MemberView>, Seq<char>>,
)
    ensures
        v.new_room(room, members).target == v.free_name(room),
        v.new_room(room, members).target_type != RoomTargetType::Chan,
{
    let query = RoomTargetView::fresh(RoomTargetType::Query, v.free_name(room));
    if let Ok(ms) = members {
        let name = sanitized(room.called());
        lemma_with_members(query, name, ms);
        lemma_with_members(query.of_type(RoomTargetType::LeftChan), name, ms);
    }
}

/// Asking for a room leaves every room that was known, and who takes what the client says
/// there, as it was; asking for it again changes nothing.
pub proof fn rooms_are_kept<H>(
    v: MappingsView<H>,
    room: RoomInfoView,
    members: Result<Seq<MemberView>, Seq<char>>,
    handler: H,
    again: Result<Seq<MemberView>, Seq<char>>,
    other: H,
)
    requires
        v.targets.dom().finite(),
    ensures
        ({
            let w = v.with_room(room, members, handler);
            &&& w.rooms.contains_key(room.id)
            &&& forall|id: Seq<char>| #[trigger] v.rooms.contains_key(id)
                ==> w.rooms.contains_key(id) && w.rooms[id] == v.rooms[id]
            &&& forall|n: Seq<char>| #[trigger] v.targets.contains_key(n)
                ==> w.targets.contains_key(n) && w.targets[n] == v.targets[n]
            &&& w.with_room(room, again, other) == w
            &&& w.room_error(room, again) is None
        }),
{
    lemma_free_name(v, room);
}

/// Rooms have names of their own on the IRC side, and someone takes what is said there,
/// however rooms, invitations and verifications come and go: asking for a room keeps it so,
/// giving someone else a name keeps it so, and so does freeing a name that is no room's.
pub proof fn rooms_stay_apart<H>(
    v: MappingsView<H>,
    room: RoomInfoView,
    members: Result<Seq<MemberView>, Seq<char>>,
    handler: H,
    candidate: Seq<char>,
    freed: Seq<char>,
)
    requires
        v.rooms_apart(),
        v.targets.dom().finite(),
    ensures
        v.with_room(room, members, handler).rooms_apart(),
        v.with_handler(candidate, handler).rooms_apart(),
        (forall|id: Seq<char>| #[trigger] v.rooms.contains_key(id) ==> v.rooms[id].target != freed)
            ==> v.without_handler(freed).rooms_apart(),
{
    lemma_free_name(v, room);
    lemma_new_room(v, room, members);
    lemma_apart(v, v.with_room(room, members, handler), room.id);
    lemma_apart(v, v.with_handler(candidate, handler), room.id);
    if forall|id: Seq<char>| #[trigger] v.rooms.contains_key(id) ==> v.rooms[id].target != freed {
        lemma_apart(v, v.without_handler(freed), room.id);
    }
}

/// Rooms stay apart where all but one are as they were, and that one has its old name or one
/// that was free.
proof fn lemma_apart<H>(v: MappingsView<H>, w: MappingsView<H>, changed: Seq<char>)
    requires
        v.rooms_apart(),
        forall|id: Seq<char>| #[trigger] w.rooms.contains_key(id) ==> w.targets.contains_key(
            w.rooms[id].target,
        ),
        forall|id: Seq<char>| #[trigger]
            w.rooms.contains_key(id) && id != changed ==> v.rooms.contains_key(id)
                && w.rooms[id].target == v.rooms[id].target,
        w.rooms.contains_key(changed) ==> if v.rooms.contains_key(changed) {
            w.rooms[changed].target == v.rooms[changed].target
        } else {
            !v.targets.contains_key(w.rooms[changed].target)
        },
    ensures
        w.rooms_apart(),
{
    assert forall|a: Seq<char>, b: Seq<char>|
        #![trigger w.rooms.contains_key(a), w.rooms.contains_key(b)]
        w.rooms.contains_key(a) && w.rooms.contains_key(b) && a != b implies w.rooms[a].target
        != w.rooms[b].target by {
        if v.rooms.contains_key(a) {
            assert(v.targets.contains_key(v.rooms[a].target));
        }
        if v.rooms.contains_key(b) {
            assert(v.targets.contains_key(v.rooms[b].target));
        }
    }
}

/// Whatever happens in a room or in the bridge's own query, as long as its name stays, rooms
/// have names of their own.
pub proof fn telling_keeps_rooms_apart<H>(v: MappingsView<H>, t: TargetRefView, r: RoomTargetView)
    requires
        v.rooms_apart(),
        v.has_target(t),
        r.target == v.target(t).target,
    ensures
        v.with_target(t, r).rooms_apart(),
{
    let changed = match t {
        TargetRefView::Room(id) => id,
        TargetRefView::Matrirc => Seq::empty(),
    };
    lemma_apart(v, v.with_target(t, r), changed);
}

/// Telling a text from a room's own name, and then freeing a name that was taken and is no
/// room's, keeps rooms apart.
pub proof fn telling_and_freeing_keep_rooms_apart<H>(
    v: MappingsView<H>,
    at: EventRoomView<H>,
    text: Seq<char>,
    freed: Seq<char>,
)
    requires
        v.rooms_apart(),
        v.targets.dom().finite(),
        v.targets.contains_key(freed),
        forall|id: Seq<char>| #[trigger] v.rooms.contains_key(id) ==> v.rooms[id].target != freed,
    ensures
        v.after_own(at, text).without_handler(freed).rooms_apart(),
{
    rooms_stay_apart(v, at.room, at.members, at.handler, freed, freed);
    lemma_free_name(v, at.room);
    lemma_new_room(v, at.room, at.members);
    let resolved = v.resolved(at.room, at.members, at.handler);
    let heard = v.heard_in(at);
    let t = v.room_ref(at.room, at.members);
    lemma_apart(v.with_room(at.room, at.members, at.handler), resolved, at.room.id);
    assert(resolved.has_target(t));
    telling_keeps_rooms_apart(resolved, t, heard.taken_in(heard.own_text(text)));
    let w = v.after_own(at, text);
    assert forall|id: Seq<char>| #[trigger] w.rooms.contains_key(id) implies w.rooms[id].target
        != freed by {
        if v.rooms.contains_key(id) {
            assert(v.rooms[id].target != freed);
        }
    }
    assert(w.targets.dom().finite());
    rooms_stay_apart(w, at.room, at.members, at.handler, freed, freed);
}

/// Freeing a name undoes giving it: all is as it was before the talk under that name began, and
/// while it lasted nobody else lost a name.
pub proof fn freeing_undoes_giving<H>(v: MappingsView<H>, candidate: Seq<char>, handler: H)
    requires
        v.targets.dom().finite(),
    ensures
        ({
            let name = deduped(v.targets.dom(), candidate);
            let w = v.with_handler(candidate, handler);
            &&& w.targets.contains_key(name) && w.targets[name] == handler
            &&& forall|n: Seq<char>| #[trigger] v.targets.contains_key(n)
                ==> w.targets.contains_key(n) && w.targets[n] == v.targets[n]
            &&& w.without_handler(name) == v
        }),
{
    let name = deduped(v.targets.dom(), candidate);
    some_variation_is_free(v.targets.dom(), candidate);
    assert(first_free(v.targets.dom(), candidate, name));
    assert(v.with_handler(candidate, handler).without_handler(name).targets =~= v.targets);
}

/// What the client says to a new room, by its name or by its channel, goes to the one that was
/// given for it.
pub proof fn messages_reach_their_room<H>(
    v: MappingsView<H>,
    room: RoomInfoView,
    members: Result<Seq<MemberView>, Seq<char>>,
    handler: H,
)
    requires
        v.targets.dom().finite(),
        !v.rooms.contains_key(room.id),
    ensures
        ({
            let w = v.with_room(room, members, handler);
            let by_name = MappingsView::<H>::looked_up(w.rooms[room.id].target);
            let by_chan = MappingsView::<H>::looked_up(w.rooms[room.id].chan());
            &&& w.targets.contains_key(by_name) && w.targets[by_name] == handler
            &&& w.targets.contains_key(by_chan) && w.targets[by_chan] == handler
        }),
{
    lemma_free_name(v, room);
    lemma_new_room(v, room, members);
    reveal_strlit("#");
    reveal_strlit("_");
    let wanted = sanitized(room.called());
    let name = v.free_name(room);
    sanitized_is_clean(room.called());
    let n = choose|n: nat| first_free_at(v.targets.dom(), wanted, name, n);
    assert(name == variation(wanted, n));
    assert(name.len() > 0 ==> name[0] != '#') by {
        if name.len() > 0 && wanted.len() == 0 {
            assert(n > 1);
            assert(name[0] == '_');
        } else if name.len() > 0 {
            assert(name[0] == wanted[0]);
        }
    }
    assert(("#"@ + name).skip(1) =~= name);
    assert(("#"@ + name).subrange(0, 1) =~= "#"@);
    if "#"@.is_prefix_of(name) {
        assert(name.subrange(0, 1)[0] == '#');
    }
}

/// Making a room known leaves all rooms well named.
pub proof fn adding_keeps_well_named<H>(
    v: MappingsView<H>,
    room: RoomInfoView,
    members: Result<Seq<MemberView>, Seq<char>>,
    handler: H,
)
    requires
        v.well_named(),
        v.targets.dom().finite(),
    ensures
        v.with_room(room, members, handler).well_named(),
{
    let wanted = sanitized(room.called());
    let name = v.free_name(room);
    let query = RoomTargetView::fresh(RoomTargetType::Query, name);
    lemma_free_name(v, room);
    sanitized_is_clean(room.called());
    lemma_clean_variation(v.targets.dom(), wanted, name);
    assert(query.well_named());
    assert(query.of_type(RoomTargetType::LeftChan).well_named());
    if let Ok(ms) = members {
        members_stay_well_named(query, wanted, ms);
        members_stay_well_named(query.of_type(RoomTargetType::LeftChan), wanted, ms);
    }
    assert(v.new_room(room, members).well_named());
    let added = v.with_room(room, members, handler);
    assert(added.well_named()) by {
        assert forall|id: Seq<char>| #[trigger] added.rooms.contains_key(id) implies
            added.rooms[id].well_named() by {
            if id != room.id || v.rooms.contains_key(room.id) {
                assert(v.rooms.contains_key(id));
            }
        }
    }
}

/// Asking for the target of a room leaves all rooms well named.
pub proof fn resolving_keeps_well_named<H>(
    v: MappingsView<H>,
    room: RoomInfoView,
    members: Result<Seq<MemberView>, Seq<char>>,
    handler: H,
)
    requires
        v.well_named(),
        v.targets.dom().finite(),
    ensures
        v.resolved(room, members, handler).well_named(),
        v.resolved(room, members, handler).has_target(v.room_ref(room, members)),
{
    let added = v.with_room(room, members, handler);
    adding_keeps_well_named(v, room, members, handler);
    reveal_strlit("matrirc");
    ascii_nick_has_user("matrirc"@);
    if let Some(e) = v.room_error(room, members) {
        let w = v.resolved(room, members, handler);
        assert forall|i: int|
            v.mt.target_type == RoomTargetType::Chan && 0 <= i < w.mt.pending.len() implies has_user(
            (#[trigger] w.mt.pending[i]).from,
        ) by {
            if i < v.mt.pending.len() {
                assert(has_user(v.mt.pending[i].from));
            }
        }
        assert(w.well_named()) by {
            assert forall|id: Seq<char>| #[trigger] w.rooms.contains_key(id) implies
                w.rooms[id].well_named() by {
                assert(added.rooms.contains_key(id));
            }
        }
    }
}

/// A well named room in place of another leaves all rooms well named.
pub proof fn lemma_with_target_well_named<H>(v: MappingsView<H>, t: TargetRefView, r: RoomTargetView)
    requires
        v.well_named(),
        r.well_named(),
    ensures
        v.with_target(t, r).well_named(),
{
    let w = v.with_target(t, r);
    assert forall|id: Seq<char>| #[trigger] w.rooms.contains_key(id) implies w.rooms[id].well_named() by {
        if t != TargetRefView::Room(id) {
            assert(v.rooms.contains_key(id));
        }
    }
}

/// Each room of well named mappings is well named.
pub proof fn lemma_target_well_named<H>(v: MappingsView<H>, t: TargetRefView)
    requires
        v.well_named(),
        v.has_target(t),
    ensures
        v.target(t).well_named(),
{
    if let TargetRefView::Room(id) = t {
        assert(v.rooms.contains_key(id));
    }
}

/// Where a text is sent at once, and all that it made the client be sent could be sent, nothing
/// waits in the room any more.
pub proof fn sent_texts_do_not_wait<H>(v: MappingsView<H>, t: TargetRefView, m: TargetMessageView)
    requires
        v.has_target(t),
        v.target(t).sends_at_once(),
    ensures
        ({
            let room = v.target(t);
            let sent = room.text_messages(v.nick, m).len();
            v.with_target(t, room.taken_in(m)).after_sent_at(t, sent) == v.with_target(
                t,
                room.after_text(m),
            )
        }),
{
    let room = v.target(t);
    let sent = room.text_messages(v.nick, m).len();
    sending_all_empties_the_queue(room, v.nick, m, 0, sent);
    let w = v.with_target(t, room.taken_in(m));
    assert(w.target(t) == room);
    assert(w.after_sent_at(t, sent) =~= v.with_target(t, room.after_text(m)));
}

/// A name is the same with a `#` before it and without, as far as what the client says goes.
pub proof fn channels_and_queries_share_names<H>(name: Seq<char>)
    requires
        name.len() > 0 ==> name[0] != '#',
    ensures
        MappingsView::<H>::looked_up(name) == name,
        MappingsView::<H>::looked_up("#"@ + name) == name,
{
    reveal_strlit("#");
    assert(("#"@ + name).skip(1) =~= name);
    assert(("#"@ + name).subrange(0, 1) =~= "#"@);
    if "#"@.is_prefix_of(name) {
        assert(name.subrange(0, 1)[0] == '#');
    }
}

/// Where all rooms are well named, anyone is heard who is in the room or whose id messages can
/// come from, and where it is no joined channel everyone is.
pub proof fn users_are_heard<H>(v: MappingsView<H>, at: EventRoomView<H>, user: Seq<char>)
    requires
        v.well_named(),
        v.targets.dom().finite(),
    ensures
        v.heard_in(at).well_named(),
        v.heard_in(at).members.contains_key(user) || has_user(user) ==> v.can_hear(at, user),
        v.heard_in(at).target_type != RoomTargetType::Chan ==> v.can_hear(at, user),
{
    let resolved = v.resolved(at.room, at.members, at.handler);
    resolving_keeps_well_named(v, at.room, at.members, at.handler);
    if let TargetRefView::Room(id) = v.room_ref(at.room, at.members) {
        assert(resolved.rooms.contains_key(id));
    }
}

/// A room is called by the name computed for display, or else by the one it was given, or else
/// by its id.
pub proof fn rooms_are_called_by_their_best_name(
    id: Seq<char>,
    display: Seq<char>,
    given: Seq<char>,
    name: Option<Seq<char>>,
)
    ensures
        (RoomInfoView { id, display_name: Some(display), name }).called() == display,
        (RoomInfoView { id, display_name: None, name: Some(given) }).called() == given,
        (RoomInfoView { id, display_name: None, name: None }).called() == id,
{
}

/// A room that was not known gets the first free variation of what it is called, as IRC can take
/// it. Under that name someone takes what is said there; it is a query until it is filled with
/// its members, where they are known and there are any. Rooms that were known, other names, and
/// the bridge's own query stay.
pub proof fn new_rooms_get_a_free_name<H>(
    v: MappingsView<H>,
    room: RoomInfoView,
    members: Result<Seq<MemberView>, Seq<char>>,
    handler: H,
)
    requires
        v.targets.dom().finite(),
        !v.rooms.contains_key(room.id),
    ensures
        ({
            let w = v.with_room(room, members, handler);
            let name = w.rooms[room.id].target;
            let query = RoomTargetView::fresh(RoomTargetType::Query, name);
            &&& first_free(v.targets.dom(), sanitized(room.called()), name)
            &&& w.targets == v.targets.insert(name, handler)
            &&& w.rooms == v.rooms.insert(room.id, w.rooms[room.id])
            &&& w.rooms[room.id] == match members {
                Ok(ms) => if ms.len() == 0 {
                    query
                } else {
                    query.filled(sanitized(room.called()), ms)
                },
                Err(_) => query,
            }
            &&& w.mt == v.mt && w.nick == v.nick && w.user == v.user
        }),
{
    lemma_free_name(v, room);
    lemma_new_room(v, room, members);
}

/// A room can be used where it was known, or where its members are and there are any. Otherwise
/// the reason is the one for which they could not be had, or that there are none.
pub proof fn rooms_need_members<H>(
    v: MappingsView<H>,
    room: RoomInfoView,
    members: Result<Seq<MemberView>, Seq<char>>,
)
    ensures
        ({
            let error = v.room_error(room, members);
            match members {
                _ if v.rooms.contains_key(room.id) => error is None,
                Ok(ms) => if ms.len() > 0 {
                    error is None
                } else {
                    error == Some("Message in empty room "@ + sanitized(room.called()) + "?"@)
                },
                Err(e) => error == Some(e),
            }
        }),
{
}

/// What happens in a room is told in that room where it can be used. Otherwise it is told in the
/// bridge's own query, behind a notice from the bridge with the reason; the room is known either
/// way.
pub proof fn unusable_rooms_are_told_of<H>(
    v: MappingsView<H>,
    room: RoomInfoView,
    members: Result<Seq<MemberView>, Seq<char>>,
    handler: H,
)
    ensures
        ({
            let w = v.resolved(room, members, handler);
            let known = v.with_room(room, members, handler);
            match v.room_error(room, members) {
                None => {
                    &&& w == known
                    &&& v.room_ref(room, members) == TargetRefView::Room(room.id)
                },
                Some(e) => {
                    &&& v.room_ref(room, members) == TargetRefView::Matrirc
                    &&& w.mt.pending == v.mt.pending.push(
                        TargetMessageView {
                            message_type: IrcMessageType::Notice,
                            from: "matrirc"@,
                            text: "Could not find or create target: "@ + e,
                        },
                    )
                    &&& w.mt.target_type == v.mt.target_type && w.mt.target == v.mt.target
                    &&& w.mt.members == v.mt.members && w.mt.names == v.mt.names
                    &&& w.rooms == known.rooms && w.targets == known.targets
                },
            }
        }),
        v.resolved(room, members, handler).rooms.contains_key(room.id),
{
}

/// A reference leads to the room with its id or to the bridge's own query, and changing what is
/// there changes nothing else.
pub proof fn references_lead_to_one_place<H>(
    v: MappingsView<H>,
    id: Seq<char>,
    other: Seq<char>,
    r: RoomTargetView,
)
    ensures
        v.target(TargetRefView::Room(id)) == v.rooms[id],
        v.target(TargetRefView::Matrirc) == v.mt,
        v.has_target(TargetRefView::Room(id)) <==> v.rooms.contains_key(id),
        v.has_target(TargetRefView::Matrirc),
        ({
            let w = v.with_target(TargetRefView::Room(id), r);
            &&& w.rooms == v.rooms.insert(id, r)
            &&& w.mt == v.mt && w.targets == v.targets && w.nick == v.nick && w.user == v.user
        }),
        ({
            let w = v.with_target(TargetRefView::Matrirc, r);
            &&& w.mt == r
            &&& w.rooms == v.rooms && w.targets == v.targets && w.nick == v.nick && w.user == v.user
        }),
{
}

/// What a user says in a room is taken in where the room's messages go, from the user's nick
/// there, in its kind and whole, and the client is sent what that makes it be sent; nothing else
/// changes.
pub proof fn words_are_told_in_their_room<H>(
    v: MappingsView<H>,
    at: EventRoomView<H>,
    kind: IrcMessageType,
    sender: Seq<char>,
    text: Seq<char>,
    r: Told,
)
    ensures
        ({
            let resolved = v.resolved(at.room, at.members, at.handler);
            let t = v.room_ref(at.room, at.members);
            let room = resolved.target(t);
            let m = TargetMessageView { message_type: kind, from: room.nick_of(sender), text };
            let own = room.own_text(text);
            &&& v.heard_in(at) == room
            &&& v.after_event(at, kind, sender, text) == resolved.with_target(t, room.taken_in(m))
            &&& v.tells(at, kind, sender, text, r) <==> {
                &&& r.target@ == t
                &&& messages(r.delivery.messages@) == room.text_messages(v.nick, m)
                &&& r.delivery.joining == (room.target_type == RoomTargetType::LeftChan)
                &&& r.delivery.flushes == (room.target_type == RoomTargetType::Query
                    || room.target_type == RoomTargetType::Chan)
            }
            &&& v.after_own(at, text) == resolved.with_target(t, room.taken_in(own))
            &&& v.tells_own(at, text, r) <==> {
                &&& r.target@ == t
                &&& messages(r.delivery.messages@) == room.text_messages(v.nick, own)
                &&& r.delivery.joining == (room.target_type == RoomTargetType::LeftChan)
                &&& r.delivery.flushes == (room.target_type == RoomTargetType::Query
                    || room.target_type == RoomTargetType::Chan)
            }
        }),
{
}

/// Where an event was taken up first, what is said of it is told just as where that is done in
/// one: in the room, from the user's nick there.
pub proof fn words_are_told_where_a_reference_leads<H>(
    v: MappingsView<H>,
    t: TargetRefView,
    kind: IrcMessageType,
    sender: Seq<char>,
    text: Seq<char>,
    r: Told,
)
    ensures
        ({
            let room = v.target(t);
            let m = TargetMessageView { message_type: kind, from: room.nick_of(sender), text };
            &&& v.after_text_at(t, kind, sender, text) == v.with_target(t, room.taken_in(m))
            &&& v.tells_at(t, kind, sender, text, r) <==> {
                &&& r.target@ == t
                &&& messages(r.delivery.messages@) == room.text_messages(v.nick, m)
                &&& r.delivery.joining == (room.target_type == RoomTargetType::LeftChan)
                &&& r.delivery.flushes == (room.target_type == RoomTargetType::Query
                    || room.target_type == RoomTargetType::Chan)
            }
        }),
{
}

/// What the client says to a name with a `#` before it is looked up without that one, and to any
/// other name as it is.
pub proof fn one_hash_is_taken_off<H>(name: Seq<char>)
    ensures
        MappingsView::<H>::looked_up(seq!['#'] + name) == name,
        name.len() == 0 || name[0] != '#' ==> MappingsView::<H>::looked_up(name) == name,
{
    reveal_strlit("#");
    assert("#"@ =~= seq!['#']);
    assert((seq!['#'] + name).skip(1) =~= name);
    assert((seq!['#'] + name).subrange(0, 1) =~= "#"@);
    if "#"@.is_prefix_of(name) {
        assert(name.subrange(0, 1)[0] == '#');
    }
}

/// Someone who takes messages gets the first free variation of a name, and freeing a name takes
/// it from whoever had it; no other name and no room changes.
pub proof fn names_are_given_and_freed<H>(
    v: MappingsView<H>,
    candidate: Seq<char>,
    handler: H,
    name: Seq<char>,
)
    requires
        v.targets.dom().finite(),
    ensures
        ({
            let given = deduped(v.targets.dom(), candidate);
            let w = v.with_handler(candidate, handler);
            &&& first_free(v.targets.dom(), candidate, given)
            &&& w.targets == v.targets.insert(given, handler)
            &&& w.rooms == v.rooms && w.mt == v.mt && w.nick == v.nick && w.user == v.user
        }),
        ({
            let w = v.without_handler(name);
            &&& w.targets == v.targets.remove(name)
            &&& w.rooms == v.rooms && w.mt == v.mt && w.nick == v.nick && w.user == v.user
        }),
{
    some_variation_is_free(v.targets.dom(), candidate);
}

/// Going through the rooms of a session makes each known in turn, but for those that another
/// room has taken the place of, up to and with the first that cannot be used: with that error it
/// ends.
pub proof fn rooms_are_gone_through_in_order<H>(
    v: MappingsView<H>,
    first: SyncRoomView<H>,
    rest: Seq<SyncRoomView<H>>,
)
    ensures
        v.synced(Seq::empty()) == v,
        v.sync_error(Seq::empty()) is None,
        ({
            let rooms = seq![first] + rest;
            let next = v.with_room(first.room, first.members, first.handler);
            let error = v.room_error(first.room, first.members);
            &&& first.tombstoned ==> v.synced(rooms) == v.synced(rest) && v.sync_error(rooms)
                == v.sync_error(rest)
            &&& !first.tombstoned && error is Some ==> v.synced(rooms) == next && v.sync_error(rooms)
                == error
            &&& !first.tombstoned && error is None ==> v.synced(rooms) == next.synced(rest)
                && v.sync_error(rooms) == next.sync_error(rest)
        }),
{
    let rooms = seq![first] + rest;
    assert(rooms[0] == first);
    assert(rooms.drop_first() =~= rest);
}

/// Where going through the rooms of a session comes to its end, every room that is in use is
/// known, and every room that was known still is.
pub proof fn rooms_in_use_are_known<H>(v: MappingsView<H>, rooms: Seq<SyncRoomView<H>>, i: int)
    ensures
        v.sync_error(rooms) is None && 0 <= i < rooms.len() && !rooms[i].tombstoned ==> v.synced(
            rooms,
        ).rooms.contains_key(rooms[i].room.id),
        forall|id: Seq<char>| #[trigger] v.rooms.contains_key(id) ==> v.synced(
            rooms,
        ).rooms.contains_key(id),
        forall|id: Seq<char>| #[trigger] v.synced(rooms).rooms.contains_key(id)
            ==> v.rooms.contains_key(id) || exists|k: int|
            0 <= k < rooms.len() && !rooms[k].tombstoned && (#[trigger] rooms[k]).room.id == id,
    decreases rooms.len(),
{
    if rooms.len() > 0 {
        let rest = rooms.drop_first();
        let r = rooms[0];
        let next = v.with_room(r.room, r.members, r.handler);
        rooms_in_use_are_known(v, rest, i - 1);
        rooms_in_use_are_known(next, rest, i - 1);
        assert(i > 0 && i < rooms.len() ==> rest[i - 1] == rooms[i]);
        assert forall|id: Seq<char>| #[trigger]
            v.rooms.contains_key(id) implies v.synced(rooms).rooms.contains_key(id) by {
            assert(next.rooms.contains_key(id));
        }
        assert(next.rooms.contains_key(r.room.id));
        assert forall|id: Seq<char>| #[trigger]
            v.synced(rooms).rooms.contains_key(id) implies v.rooms.contains_key(id) || exists|k: int|
            0 <= k < rooms.len() && !rooms[k].tombstoned && (#[trigger] rooms[k]).room.id == id by {
            if !v.rooms.contains_key(id) {
                let w = if r.tombstoned {
                    v
                } else {
                    next
                };
                if w.rooms.contains_key(id) {
                    assert(rooms[0].room.id == id);
                } else {
                    let k = choose|k: int|
                        0 <= k < rest.len() && !rest[k].tombstoned && (#[trigger] rest[k]).room.id == id;
                    assert(rooms[k + 1] == rest[k]);
                }
            }
        }
    }
}

/// A join ends with the names of all who are in the room, each once, and then all that waits:
/// how much of it is names is told with it.
pub proof fn joins_tell_who_is_there<H>(v: MappingsView<H>, t: TargetRefView, r: JoinDelivery)
    requires
        v.joins_with(t, r),
    ensures
        ({
            let room = v.target(t);
            let sent = messages(r.messages@);
            &&& r.names <= sent.len()
            &&& sent.skip(r.names as int) == room.delivered(v.nick, room.pending)
            &&& exists|names: Seq<Seq<char>>|
                {
                    &&& #[trigger] lists_once(names, room.names.dom())
                    &&& sent.take(r.names as int) == join_finish_messages(
                        v.nick,
                        seq!['#'] + room.target,
                        names,
                    )
                }
        }),
{
    let room = v.target(t);
    let sent = messages(r.messages@);
    reveal_strlit("#");
    assert("#"@ =~= seq!['#']);
    let names = choose|names: Seq<Seq<char>>|
        {
            &&& #[trigger] lists_once(names, room.names.dom())
            &&& sent == join_finish_messages(v.nick, room.chan(), names) + room.delivered(
                v.nick,
                room.pending,
            )
            &&& r.names == join_finish_messages(v.nick, room.chan(), names).len()
        };
    let told = join_finish_messages(v.nick, room.chan(), names);
    assert(sent.take(r.names as int) =~= told);
    assert(sent.skip(r.names as int) =~= room.delivered(v.nick, room.pending));
    assert(lists_once(names, room.names.dom()));
}

} // verus!
