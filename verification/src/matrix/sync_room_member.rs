//! Users who come to a room and leave it, as the client is told of them.

use vstd::prelude::*;
use vstd::string::*;

use crate::ircd::proto::{
    message_from, messages, opt_text, CommandView, IrcMessageType, Message,
    MessageView,
};
use crate::matrirc::{Matrirc, MatrircView};
use crate::matrix::room_mappings::{
    lemma_target_well_named, lemma_with_target_well_named, resolving_keeps_well_named, EventRoom,
    EventRoomView, Mappings, MappingsView, Told,
};
use crate::matrix::room_target::{
    opt_str, rooms_stay_well_named, sanitized_is_clean, Delivery, RoomTargetType,
    RoomTargetView, TargetMessageView,
};
use crate::matrix::sync_room_message::is_told;
use crate::text::{cat3, same};

verus! {

/// What became of a user in a room, as far as the client is told.
#[derive(Debug, Clone, Copy, PartialEq, Eq, Structural)]
pub enum MembershipChange {
    Invited,
    Joined,
    InvitationAccepted,
    /// The user left without being made to.
    Left,
    /// Anything else.
    Other,
}

/// Which change it is when a user's membership in a room becomes `now`. One without a
/// membership before had left; `by_self` is whether the user is the one who changed it.
pub open spec fn change(now: Seq<char>, before: Option<Seq<char>>, by_self: bool) -> MembershipChange {
    let was = match before {
        Some(m) => m,
        None => "leave"@,
    };
    if was == "leave"@ && now == "join"@ {
        MembershipChange::Joined
    } else if was == "invite"@ && now == "join"@ {
        MembershipChange::InvitationAccepted
    } else if was == "join"@ && now == "leave"@ && by_self {
        MembershipChange::Left
    } else if was == "leave"@ && now == "invite"@ {
        MembershipChange::Invited
    } else {
        MembershipChange::Other
    }
}

/// Whether `ruma::UserId::parse` takes a text for a user id.
pub uninterp spec fn is_user_id(text: Seq<char>) -> bool;

/// `ruma::events::room::member::RoomMemberEventContent::membership_change` tells what became of
/// a user from the membership before and after, and from whether sender and user are the same.
/// It takes user ids, which `ruma::UserId::parse` makes of texts; there is no result where one
/// of the two is none.
#[verifier::external_body]
fn membership_change(
    membership: &str,
    prev_membership: Option<&str>,
    sender: &str,
    state_key: &str,
) -> (r: Option<MembershipChange>)
    ensures
        (match r {
            Some(c) => {
                &&& is_user_id(sender@) && is_user_id(state_key@)
                &&& c == change(membership@, opt_str(prev_membership), sender@ == state_key@)
            },
            None => !(is_user_id(sender@) && is_user_id(state_key@)),
        }),
{
    let user = |id: &str| matrix_sdk::ruma::UserId::parse(id).ok();
    let content = |m: &str| matrix_sdk::ruma::events::room::member::RoomMemberEventContent::new(m.into());
    let prev = prev_membership.map(content);
    let now = content(membership);
    let details = prev.as_ref().map(|c| c.details());
    Some(match now.membership_change(details, &*user(sender)?, &*user(state_key)?) {
        matrix_sdk::ruma::events::room::member::MembershipChange::Invited => MembershipChange::Invited,
        matrix_sdk::ruma::events::room::member::MembershipChange::Joined => MembershipChange::Joined,
        matrix_sdk::ruma::events::room::member::MembershipChange::InvitationAccepted => MembershipChange::InvitationAccepted,
        matrix_sdk::ruma::events::room::member::MembershipChange::Left => MembershipChange::Left,
        _ => MembershipChange::Other,
    })
}

/// What is said of an invitation.
pub open spec fn invitation_told(displayname: Option<Seq<char>>) -> Seq<char> {
    "<invited "@ + match displayname {
        Some(n) => n,
        None => "???"@,
    } + ">"@
}

/// An invitation as a message of the room.
pub open spec fn invitation(
    v: RoomTargetView,
    sender: Seq<char>,
    displayname: Option<Seq<char>>,
) -> TargetMessageView {
    TargetMessageView {
        message_type: IrcMessageType::Notice,
        from: v.nick_of(sender),
        text: invitation_told(displayname),
    }
}

/// A room after a membership in it changed, before anything was sent.
pub open spec fn after_change(
    v: RoomTargetView,
    c: MembershipChange,
    sender: Seq<char>,
    displayname: Option<Seq<char>>,
) -> RoomTargetView {
    match c {
        MembershipChange::Invited => v.taken_in(invitation(v, sender, displayname)),
        MembershipChange::Joined | MembershipChange::InvitationAccepted => v.after_member_join(
            sender,
            displayname,
        ),
        MembershipChange::Left => if v.members.contains_key(sender) {
            v.without_member(sender)
        } else {
            v
        },
        MembershipChange::Other => v,
    }
}

/// What the client is sent when a membership changed.
pub open spec fn change_messages(
    v: RoomTargetView,
    nick: Seq<char>,
    c: MembershipChange,
    sender: Seq<char>,
    displayname: Option<Seq<char>>,
) -> Seq<MessageView> {
    match c {
        MembershipChange::Invited => v.text_messages(nick, invitation(v, sender, displayname)),
        MembershipChange::Joined | MembershipChange::InvitationAccepted => seq![
            v.member_join_message(sender, displayname),
        ],
        MembershipChange::Left => if v.members.contains_key(sender) {
            seq![message_from(Some(v.members[sender]), CommandView::PART(v.chan()))]
        } else {
            Seq::empty()
        },
        MembershipChange::Other => Seq::empty(),
    }
}

/// Whether the client begins to join the channel when a membership changed.
pub open spec fn change_joins(v: RoomTargetView, c: MembershipChange) -> bool {
    match c {
        MembershipChange::Invited => v.target_type == RoomTargetType::LeftChan,
        MembershipChange::Joined | MembershipChange::InvitationAccepted => v.can_join(),
        _ => false,
    }
}

/// A change of someone's membership in a room.
pub struct RoomMemberEvent {
    /// who changed it
    pub sender: String,
    /// whose membership it is
    pub state_key: String,
    pub membership: String,
    pub prev_membership: Option<String>,
    pub displayname: Option<String>,
    /// whether it came from this very client
    pub own: bool,
}

impl RoomMemberEvent {
    /// Whether it is an invitation, by the memberships before and after.
    pub open spec fn invites(self) -> bool {
        &&& self.membership@ == "invite"@
        &&& self.prev_membership matches Some(m) ==> m@ == "leave"@
    }

    /// Which change it is.
    pub open spec fn kind(self) -> MembershipChange {
        if is_user_id(self.sender@) && is_user_id(self.state_key@) {
            change(
                self.membership@,
                opt_text(self.prev_membership),
                self.sender@ == self.state_key@,
            )
        } else {
            MembershipChange::Other
        }
    }
}

impl RoomMemberEvent {
    /// Whether it is an invitation, by the memberships before and after.
    pub fn is_invitation(&self) -> (r: bool)
        ensures
            r == self.invites(),
    {
        same(&self.membership, "invite") && match &self.prev_membership {
            Some(m) => same(m, "leave"),
            None => true,
        }
    }
}

/// Which change of membership an event is.
pub fn change_of(event: &RoomMemberEvent) -> (r: MembershipChange)
    ensures
        r == event.kind(),
{
    let before: Option<&str> = match &event.prev_membership {
        Some(m) => Some(m),
        None => None,
    };
    match membership_change(&event.membership, before, &event.sender, &event.state_key) {
        Some(c) => c,
        None => MembershipChange::Other,
    }
}

/// Tells the client of a change of membership.
pub fn on_membership_change<H>(
    mappings: &mut Mappings<H>,
    change: MembershipChange,
    sender: &str,
    displayname: &Option<String>,
    at: EventRoom<H>,
) -> (r: Told)
    requires
        old(mappings).wf(),
        old(mappings)@.well_named(),
        change == MembershipChange::Invited ==> old(mappings)@.can_hear(at@, sender@),
    ensures
        final(mappings).wf(),
        final(mappings)@.well_named(),
        final(mappings)@ == old(mappings)@.after_membership(
            at@,
            change,
            sender@,
            opt_text(*displayname),
        ),
        old(mappings)@.tells_membership(at@, change, sender@, opt_text(*displayname), r),
{
    let name: Option<&str> = match displayname {
        Some(n) => Some(n),
        None => None,
    };
    match change {
        MembershipChange::Invited => {
            let invited: &str = match name {
                Some(n) => n,
                None => "???",
            };
            let text = cat3("<invited ", invited, ">");
            mappings.tell(at, IrcMessageType::Notice, sender, &text)
        },
        _ => {
            proof {
                mappings.names_are_finite();
                resolving_keeps_well_named(mappings@, at.room@, at@.members, at.handler);
            }
            let ghost heard = mappings@.heard_in(at@);
            let target = mappings.room_target(&at.room, at.members, at.handler);
            let ghost resolved = mappings@;
            let room = mappings.target_mut(&target);
            proof {
                lemma_target_well_named(resolved, target@);
                room.nicks_are_finite();
                let wanted = RoomTargetView::asked_nick(sender@, opt_text(*displayname));
                sanitized_is_clean(sender@);
                if let Some(n) = name {
                    sanitized_is_clean(n@);
                }
                let m = TargetMessageView {
                    message_type: IrcMessageType::Notice,
                    from: wanted,
                    text: Seq::empty(),
                };
                rooms_stay_well_named(
                    heard,
                    m,
                    sender@,
                    wanted,
                    RoomTargetType::JoiningChan,
                    Seq::empty(),
                    0,
                    0,
                );
                assert(after_change(heard, change, sender@, opt_text(*displayname)).well_named());
                lemma_with_target_well_named(
                    resolved,
                    target@,
                    after_change(heard, change, sender@, opt_text(*displayname)),
                );
            }
            let delivery = match change {
                MembershipChange::Joined | MembershipChange::InvitationAccepted => room.member_join(
                    sender,
                    name,
                ),
                MembershipChange::Left => {
                    let mut sent: Vec<Message> = Vec::new();
                    match room.member_part(sender) {
                        Some(m) => {
                            sent.push(m);
                            assert(messages(sent@) =~= seq![m@]);
                        },
                        None => {
                            assert(messages(sent@) =~= Seq::empty());
                        },
                    }
                    Delivery { messages: sent, joining: false, flushes: false }
                },
                _ => {
                    let sent: Vec<Message> = Vec::new();
                    assert(messages(sent@) =~= Seq::empty());
                    Delivery { messages: sent, joining: false, flushes: false }
                },
            };
            Told { target, delivery }
        },
    }
}

impl<H> MappingsView<H> {
    /// After a change of membership was taken in, before anything was sent.
    pub open spec fn after_membership(
        self,
        at: EventRoomView<H>,
        c: MembershipChange,
        sender: Seq<char>,
        displayname: Option<Seq<char>>,
    ) -> Self {
        self.told(at, after_change(self.heard_in(at), c, sender, displayname))
    }

    /// Whether `r` is what the client is to be sent for a change of membership.
    pub open spec fn tells_membership(
        self,
        at: EventRoomView<H>,
        c: MembershipChange,
        sender: Seq<char>,
        displayname: Option<Seq<char>>,
        r: Told,
    ) -> bool {
        let heard = self.heard_in(at);
        &&& r.target@ == self.room_ref(at.room, at.members)
        &&& messages(r.delivery.messages@) == change_messages(heard, self.nick, c, sender, displayname)
        &&& r.delivery.joining == change_joins(heard, c)
        &&& r.delivery.flushes == (c == MembershipChange::Invited && heard.sends_at_once())
    }
}

/// Tells the client of a change of membership in a room.
pub fn on_room_member<H>(matrirc: &mut Matrirc<H>, event: &RoomMemberEvent, at: EventRoom<H>) -> (r:
    Option<Told>)
    requires
        old(matrirc).wf(),
        old(matrirc)@.mappings.well_named(),
        !event.own && at.joined && event.invites() ==> old(matrirc)@.mappings.can_hear(
            at@,
            event.sender@,
        ),
    ensures
        final(matrirc).wf(),
        final(matrirc)@.mappings.well_named(),
        (match r {
            None => (event.own || !at.joined) && final(matrirc)@ == old(matrirc)@,
            Some(told) => {
                &&& !event.own && at.joined
                &&& final(matrirc)@ == (MatrircView {
                    mappings: old(matrirc)@.mappings.after_membership(
                        at@,
                        event.kind(),
                        event.sender@,
                        opt_text(event.displayname),
                    ),
                    ..old(matrirc)@
                })
                &&& old(matrirc)@.mappings.tells_membership(
                    at@,
                    event.kind(),
                    event.sender@,
                    opt_text(event.displayname),
                    told,
                )
            },
        }),
{
    if !is_told(event.own, at.joined) {
        return None;
    }
    let change = change_of(event);
    Some(
        on_membership_change(
            matrirc.mappings_mut(),
            change,
            &event.sender,
            &event.displayname,
            at,
        ),
    )
}

/// A user who was not there and is now joined, and an invited one who is, has joined. One who was
/// there leaves only by itself: to be made to leave is something else. One who was not there can
/// be invited. A user without a membership before was not there.
pub proof fn memberships_become_one_another(now: Seq<char>, before: Seq<char>, by_self: bool)
    ensures
        change(now, None, by_self) == change(now, Some("leave"@), by_self),
        change("join"@, Some("leave"@), by_self) == MembershipChange::Joined,
        change("join"@, Some("invite"@), by_self) == MembershipChange::InvitationAccepted,
        change("leave"@, Some("join"@), true) == MembershipChange::Left,
        change("leave"@, Some("join"@), false) == MembershipChange::Other,
        change("invite"@, Some("leave"@), by_self) == MembershipChange::Invited,
        now == before ==> change(now, Some(before), by_self) == MembershipChange::Other,
        change(now, Some(before), by_self) != MembershipChange::Other ==> {
            ||| before == "leave"@ && (now == "join"@ || now == "invite"@)
            ||| before == "invite"@ && now == "join"@
            ||| before == "join"@ && now == "leave"@ && by_self
        },
{
    reveal_strlit("leave");
    reveal_strlit("join");
    reveal_strlit("invite");
    assert("leave"@[0] != "join"@[0]);
    assert("leave"@[0] != "invite"@[0]);
    assert("join"@[0] != "invite"@[0]);
}

/// An event is an invitation when it says so of one who was not there, whoever sent it; where
/// both the sender and the user it is about have user ids, it is then told as one. An event
/// without them is not told as any change.
pub proof fn events_are_the_change_they_say(event: RoomMemberEvent)
    ensures
        event.invites() <==> event.membership@ == "invite"@ && (event.prev_membership is None
            || event.prev_membership->0@ == "leave"@),
        is_user_id(event.sender@) && is_user_id(event.state_key@) ==> {
            &&& event.kind() == MembershipChange::Invited <==> event.invites()
            &&& event.kind() == change(
                event.membership@,
                opt_text(event.prev_membership),
                event.sender@ == event.state_key@,
            )
        },
        !is_user_id(event.sender@) || !is_user_id(event.state_key@) ==> event.kind()
            == MembershipChange::Other,
{
    memberships_become_one_another(event.membership@, "leave"@, true);
    reveal_strlit("leave");
    reveal_strlit("join");
    reveal_strlit("invite");
    assert("leave"@[0] != "join"@[0]);
    assert("leave"@[0] != "invite"@[0]);
    assert("join"@[0] != "invite"@[0]);
}

/// Who joined, invited or not, is a member from then on; who left is none, and is told to part
/// from the channel under the nick they had there. Who was invited is none yet: that is said in a
/// notice from who invited them, by the name they show. Anything else is not told, and changes
/// nothing.
pub proof fn changes_are_told_in_the_room(
    v: RoomTargetView,
    nick: Seq<char>,
    sender: Seq<char>,
    displayname: Option<Seq<char>>,
)
    requires
        v.names.dom().finite(),
    ensures
        after_change(v, MembershipChange::Joined, sender, displayname) == v.after_member_join(
            sender,
            displayname,
        ),
        after_change(v, MembershipChange::InvitationAccepted, sender, displayname)
            == v.after_member_join(sender, displayname),
        change_messages(v, nick, MembershipChange::Joined, sender, displayname) == seq![
            v.member_join_message(sender, displayname),
        ],
        change_messages(v, nick, MembershipChange::InvitationAccepted, sender, displayname) == seq![
            v.member_join_message(sender, displayname),
        ],
        change_joins(v, MembershipChange::Joined) == v.can_join(),
        change_joins(v, MembershipChange::InvitationAccepted) == v.can_join(),
        ({
            let after = after_change(v, MembershipChange::Left, sender, displayname);
            let told = change_messages(v, nick, MembershipChange::Left, sender, displayname);
            &&& !after.members.contains_key(sender)
            &&& after.pending == v.pending && after.target == v.target && after.target_type
                == v.target_type
            &&& forall|user: Seq<char>| user != sender ==> (after.members.contains_key(user)
                <==> #[trigger] v.members.contains_key(user))
            &&& forall|user: Seq<char>| user != sender && #[trigger] v.members.contains_key(user)
                ==> after.members[user] == v.members[user]
            &&& v.members.contains_key(sender) ==> {
                &&& !after.names.contains_key(v.members[sender])
                &&& told == seq![
                    message_from(
                        Some(v.members[sender]),
                        CommandView::PART(seq!['#'] + v.target),
                    ),
                ]
            }
            &&& !v.members.contains_key(sender) ==> after == v && told.len() == 0
            &&& !change_joins(v, MembershipChange::Left)
        }),
        ({
            let name = match displayname {
                Some(n) => n,
                None => "???"@,
            };
            let m = TargetMessageView {
                message_type: IrcMessageType::Notice,
                from: v.nick_of(sender),
                text: "<invited "@ + name + ">"@,
            };
            let after = after_change(v, MembershipChange::Invited, sender, displayname);
            &&& after == v.taken_in(m)
            &&& after.members == v.members && after.names == v.names
            &&& change_messages(v, nick, MembershipChange::Invited, sender, displayname)
                == v.text_messages(nick, m)
            &&& change_joins(v, MembershipChange::Invited) <==> v.target_type
                == RoomTargetType::LeftChan
        }),
        after_change(v, MembershipChange::Other, sender, displayname) == v,
        change_messages(v, nick, MembershipChange::Other, sender, displayname).len() == 0,
        !change_joins(v, MembershipChange::Other),
{
    reveal_strlit("#");
    assert("#"@ =~= seq!['#']);
    assert("#"@ + v.target =~= seq!['#'] + v.target);
}

/// A change of membership is told in its room, and changes nothing else.
pub proof fn changes_touch_only_their_room<H>(
    v: MappingsView<H>,
    at: EventRoomView<H>,
    c: MembershipChange,
    sender: Seq<char>,
    displayname: Option<Seq<char>>,
    r: Told,
)
    ensures
        ({
            let resolved = v.resolved(at.room, at.members, at.handler);
            let t = v.room_ref(at.room, at.members);
            let room = resolved.target(t);
            &&& v.after_membership(at, c, sender, displayname) == resolved.with_target(
                t,
                after_change(room, c, sender, displayname),
            )
            &&& v.tells_membership(at, c, sender, displayname, r) ==> {
                &&& r.target@ == t
                &&& messages(r.delivery.messages@) == change_messages(
                    room,
                    v.nick,
                    c,
                    sender,
                    displayname,
                )
                &&& r.delivery.joining <==> change_joins(room, c)
                &&& r.delivery.flushes <==> c == MembershipChange::Invited && (room.target_type
                    == RoomTargetType::Query || room.target_type == RoomTargetType::Chan)
            }
        }),
{
}

} // verus!
