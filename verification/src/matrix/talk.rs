//! A query in which the bridge asks the client something.

use vstd::prelude::*;
use vstd::string::*;

use crate::ircd::proto::{messages, IrcMessageType, IrcMessageView, MessageView};
use crate::matrix::room_target::{
    rooms_stay_well_named, well_named_rooms_can_send, Delivery, RoomTarget, RoomTargetType,
    RoomTargetView, TargetMessageView,
};

verus! {

/// A query in which the bridge asks the client something, once it has a name.
pub struct Talk {
    target: Option<RoomTarget>,
}

impl View for Talk {
    type V = Option<RoomTargetView>;

    closed spec fn view(&self) -> Option<RoomTargetView> {
        match self.target {
            Some(t) => Some(t@),
            None => None,
        }
    }
}

/// Whether `r` is what saying `text` to the client gives, and `after` the query then, before
/// anything was sent.
pub open spec fn says(
    before: Option<RoomTargetView>,
    nick: Seq<char>,
    text: Seq<char>,
    after: Option<RoomTargetView>,
    r: Result<Delivery, String>,
) -> bool {
    match before {
        Some(t) => {
            let m = t.own_text(text);
            &&& r matches Ok(d) && {
                &&& messages(d.messages@) == t.text_messages(nick, m)
                &&& d.joining == (t.target_type == RoomTargetType::LeftChan)
                &&& d.flushes == t.sends_at_once()
            }
            &&& after == Some(t.taken_in(m))
        },
        None => {
            &&& r matches Err(e) && e@ == "target should always be set"@
            &&& after is None
        },
    }
}

/// The query after what waited there was sent, as far as `sent` messages to the client.
pub open spec fn talk_sent(
    before: Option<RoomTargetView>,
    nick: Seq<char>,
    sent: nat,
) -> Option<RoomTargetView> {
    match before {
        Some(t) => Some(t.after_sent(nick, sent)),
        None => None,
    }
}

impl Talk {
    /// The query is in order, and the bridge can speak in it.
    pub closed spec fn wf(self) -> bool {
        self.target matches Some(t) ==> t.wf() && t@.well_named()
    }

    /// A talk that has no query yet.
    pub fn new() -> (r: Self)
        ensures
            r.wf(),
            r@ is None,
    {
        Talk { target: None }
    }

    /// Gives the talk its query.
    pub fn set_target(&mut self, target: RoomTarget)
        requires
            target.wf(),
            target@.well_named(),
        ensures
            final(self).wf(),
            final(self)@ == Some(target@),
    {
        self.target = Some(target);
    }

    /// Says something to the client.
    pub fn to_irc(&mut self, nick: &str, message: &str) -> (r: Result<Delivery, String>)
        requires
            old(self).wf(),
        ensures
            final(self).wf(),
            says(old(self)@, nick@, message@, final(self)@, r),
    {
        match &mut self.target {
            Some(target) => {
                proof {
                    let v = target@;
                    target.nicks_are_finite();
                    well_named_rooms_can_send(v, v.target);
                    rooms_stay_well_named(
                        v,
                        v.own_text(message@),
                        v.target,
                        v.target,
                        RoomTargetType::Query,
                        nick@,
                        0,
                        0,
                    );
                }
                Ok(target.send_simple_query(nick, message))
            },
            None => Err("target should always be set".to_owned()),
        }
    }

    /// Takes out of the queue what was sent of it, when `sent` of the messages to the client of
    /// which it was the beginning could be sent.
    pub fn sent(&mut self, nick: &str, sent: usize)
        requires
            old(self).wf(),
        ensures
            final(self).wf(),
            final(self)@ == talk_sent(old(self)@, nick@, sent as nat),
    {
        match &mut self.target {
            Some(target) => {
                proof {
                    let v = target@;
                    target.nicks_are_finite();
                    rooms_stay_well_named(
                        v,
                        v.own_text(Seq::empty()),
                        v.target,
                        v.target,
                        RoomTargetType::Query,
                        nick@,
                        0,
                        sent as nat,
                    );
                }
                target.sent(nick, sent);
            },
            None => {},
        }
    }

    /// The name of the query.
    pub fn name(&self) -> (r: Result<String, String>)
        ensures
            (match r {
                Ok(n) => self@ matches Some(t) && n@ == t.target,
                Err(e) => self@ is None && e@ == "target should always be set"@,
            }),
    {
        match &self.target {
            Some(target) => Ok(target.target()),
            None => Err("target should always be set".to_owned()),
        }
    }
}

/// What the bridge says in a query of its own reaches the client as it is, line by line, from
/// the name of the query, and leaves the query as it was, however much of it could be sent.
pub proof fn queries_say_what_they_are_given(
    name: Seq<char>,
    nick: Seq<char>,
    text: Seq<char>,
    sent: nat,
)
    ensures
        ({
            let query = RoomTargetView::fresh(RoomTargetType::Query, name);
            let m = query.own_text(text);
            &&& query.taken_in(m) == query
            &&& query.after_sent(nick, sent) == query
            &&& query.text_messages(nick, m) == (IrcMessageView {
                message_type: IrcMessageType::Privmsg,
                from: name,
                target: nick,
                text,
            }).lines()
        }),
{
    let query = RoomTargetView::fresh(RoomTargetType::Query, name);
    let m = query.own_text(text);
    assert(query.delivered(nick, query.pending) =~= Seq::<MessageView>::empty());
    assert(query.text_messages(nick, m) =~= query.as_irc(nick, m).lines());
}

/// A talk that has a query says what it is to say there, as a private message from the one that
/// the query is named after, and takes it in there; one that has none cannot say anything.
pub proof fn talks_need_a_query(
    t: RoomTargetView,
    nick: Seq<char>,
    text: Seq<char>,
    after: Option<RoomTargetView>,
    d: Delivery,
    e: String,
    sent: nat,
)
    ensures
        ({
            let m = TargetMessageView {
                message_type: IrcMessageType::Privmsg,
                from: t.nick_of(t.target),
                text,
            };
            says(Some(t), nick, text, after, Ok(d)) <==> {
                &&& after == Some(t.taken_in(m))
                &&& messages(d.messages@) == t.text_messages(nick, m)
                &&& d.joining <==> t.target_type == RoomTargetType::LeftChan
                &&& d.flushes <==> t.target_type == RoomTargetType::Query || t.target_type
                    == RoomTargetType::Chan
            }
        }),
        !says(Some(t), nick, text, after, Err(e)),
        !says(None, nick, text, after, Ok(d)),
        says(None, nick, text, after, Err(e)) <==> after is None && e@
            == "target should always be set"@,
        talk_sent(Some(t), nick, sent) == Some(t.after_sent(nick, sent)),
        talk_sent(None, nick, sent) is None,
{
}

} // verus!
