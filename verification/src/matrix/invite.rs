//! Invitations to rooms: the client is asked, and its answer is carried out.

use vstd::prelude::*;
use vstd::string::*;

use crate::ircd::proto::{ascii_nick_has_user, messages};
use crate::matrix::room_mappings::{
    rooms_stay_apart, telling_and_freeing_keep_rooms_apart, EventRoom, EventRoomView, Mappings,
    MappingsView, MatrixMessageType, MessageHandler, RoomInfoView, Told,
};
use crate::matrix::room_target::{
    deduped, Delivery, RoomTarget, RoomTargetType, RoomTargetView,
};
use crate::matrix::talk::{says, talk_sent, Talk};
use crate::text::{cat2, cat3, cat4, same};

verus! {

/// An invitation that the client was asked about.
pub struct InvitationContext {
    room_name: String,
    talk: Talk,
}

/// What an [`InvitationContext`] holds.
pub struct InvitationView {
    pub room_name: Seq<char>,
    pub target: Option<RoomTargetView>,
}

impl View for InvitationContext {
    type V = InvitationView;

    closed spec fn view(&self) -> InvitationView {
        InvitationView { room_name: self.room_name@, target: self.talk@ }
    }
}

/// What is done when the client answered.
pub enum InviteAction {
    /// The room is joined. The client is told so, if it can be.
    Join(Result<Delivery, String>),
    /// The client is told, the invitation is rejected, and then the talk is over.
    Reject(Delivery),
    /// The client is told that this was no answer.
    Again(Delivery),
    /// The client could not be told, so nothing is done.
    Failed(String),
}

/// What the client is told when it answered.
pub open spec fn answer_text(message: Seq<char>, room_name: Seq<char>) -> Seq<char> {
    if message == "yes"@ {
        "Joining room "@ + room_name
    } else if message == "no"@ {
        "Okay"@
    } else {
        "expecting yes or no"@
    }
}

/// Whether `action` is what an answer leads to, and `after` the talk then.
pub open spec fn answered(
    before: InvitationView,
    nick: Seq<char>,
    message: Seq<char>,
    after: InvitationView,
    action: InviteAction,
) -> bool {
    let text = answer_text(message, before.room_name);
    &&& after.room_name == before.room_name
    &&& match action {
        InviteAction::Join(r) => message == "yes"@ && says(before.target, nick, text, after.target, r),
        InviteAction::Reject(d) => message == "no"@ && says(
            before.target,
            nick,
            text,
            after.target,
            Ok(d),
        ),
        InviteAction::Again(d) => message != "yes"@ && message != "no"@ && says(
            before.target,
            nick,
            text,
            after.target,
            Ok(d),
        ),
        InviteAction::Failed(e) => message != "yes"@ && says(
            before.target,
            nick,
            text,
            after.target,
            Err(e),
        ),
    }
}

/// What is done when a try to join the room ended.
pub enum InviteStep {
    /// Wait for so many seconds, and try again.
    Sleep(u64),
    /// The client is told that the room is joined, and the talk is over.
    Joined(Told),
    /// The client is told that the room could not be joined, if it can be, and the talk is over.
    GaveUp(Result<Delivery, String>),
}

impl InvitationView {
    /// After the talk: its name is free again.
    pub open spec fn freed<H>(self, mappings: MappingsView<H>) -> MappingsView<H> {
        match self.target {
            Some(t) => mappings.without_handler(t.target),
            None => mappings,
        }
    }

    /// What the client is told when the room is joined.
    pub open spec fn joined_text(self) -> Seq<char> {
        "Joined room "@ + self.room_name
    }

    /// What the client is told when the room could not be joined.
    pub open spec fn gave_up_text(self, err: Seq<char>) -> Seq<char> {
        "Gave up joining room "@ + self.room_name + ": "@ + err
    }

    /// The mappings after some tries to join the room, with how long to wait after the first of
    /// them, and whether the talk is over then.
    pub open spec fn after_tries<H>(
        self,
        mappings: MappingsView<H>,
        delay: nat,
        outcomes: Seq<Result<EventRoomView<H>, Seq<char>>>,
    ) -> (MappingsView<H>, bool)
        decreases outcomes.len(),
    {
        if outcomes.len() == 0 {
            (mappings, false)
        } else {
            match outcomes[0] {
                Ok(at) => (self.freed(mappings.after_own(at, self.joined_text())), true),
                Err(_) => match retry_action(delay) {
                    RetryAction::Sleep(_) => self.after_tries(
                        mappings,
                        next_delay(delay),
                        outcomes.drop_first(),
                    ),
                    RetryAction::GiveUp => (self.freed(mappings), true),
                },
            }
        }
    }
}

impl InvitationContext {
    /// The talk is in order.
    pub closed spec fn wf(self) -> bool {
        self.talk.wf()
    }

    /// An invitation that the client was not asked about yet.
    pub fn new(room_name: &str) -> (r: Self)
        ensures
            r.wf(),
            r@ == (InvitationView { room_name: room_name@, target: None }),
    {
        InvitationContext { room_name: room_name.to_owned(), talk: Talk::new() }
    }

    /// Says something to the client.
    pub fn to_irc(&mut self, nick: &str, message: &str) -> (r: Result<Delivery, String>)
        requires
            old(self).wf(),
        ensures
            final(self).wf(),
            final(self)@.room_name == old(self)@.room_name,
            says(old(self)@.target, nick@, message@, final(self)@.target, r),
    {
        self.talk.to_irc(nick, message)
    }

    /// Takes in how much of what the client was to be sent could be sent.
    pub fn sent(&mut self, nick: &str, sent: usize)
        requires
            old(self).wf(),
        ensures
            final(self).wf(),
            final(self)@ == (InvitationView {
                target: talk_sent(old(self)@.target, nick@, sent as nat),
                ..old(self)@
            }),
    {
        self.talk.sent(nick, sent);
    }

    /// Ends the talk: its name is free again.
    pub fn stop<H>(&self, mappings: &mut Mappings<H>) -> (r: Result<(), String>)
        requires
            old(mappings).wf(),
        ensures
            final(mappings).wf(),
            (match r {
                Ok(()) => self@.target is Some,
                Err(e) => self@.target is None && e@ == "target should always be set"@,
            }),
            final(mappings)@ == self@.freed(old(mappings)@),
            old(mappings)@.well_named() ==> final(mappings)@.well_named(),
    {
        match self.talk.name() {
            Ok(name) => {
                mappings.remove_target(&name);
                Ok(())
            },
            Err(e) => Err(e),
        }
    }

    /// Tells the client that the room is joined.
    fn joined<H>(&self, mappings: &mut Mappings<H>, at: EventRoom<H>) -> (r: Told)
        requires
            old(mappings).wf(),
            old(mappings)@.well_named(),
        ensures
            final(mappings).wf(),
            final(mappings)@.well_named(),
            final(mappings)@ == old(mappings)@.after_own(at@, self@.joined_text()),
            old(mappings)@.tells_own(at@, self@.joined_text(), r),
    {
        mappings.tell_own(at, &cat2("Joined room ", &self.room_name))
    }

    /// Tells the client that the room could not be joined.
    fn gave_up(&mut self, nick: &str, err: &str) -> (r: Result<Delivery, String>)
        requires
            old(self).wf(),
        ensures
            final(self).wf(),
            final(self)@.room_name == old(self)@.room_name,
            says(old(self)@.target, nick@, old(self)@.gave_up_text(err@), final(self)@.target, r),
    {
        let text = cat4("Gave up joining room ", &self.room_name, ": ", err);
        self.to_irc(nick, &text)
    }

    /// Takes in how a try to join the room ended: it is tried again later, or the client is told
    /// how it ended and the talk is over.
    pub fn tried<H>(
        &mut self,
        mappings: &mut Mappings<H>,
        retry: &mut JoinRetry,
        outcome: Result<EventRoom<H>, String>,
    ) -> (r: InviteStep)
        requires
            old(self).wf(),
            old(mappings).wf(),
            old(mappings)@.well_named(),
        ensures
            final(self).wf(),
            final(self)@.room_name == old(self)@.room_name,
            final(mappings).wf(),
            final(mappings)@.well_named(),
            (match outcome {
                Ok(at) => {
                    let text = old(self)@.joined_text();
                    &&& r matches InviteStep::Joined(told) && old(mappings)@.tells_own(
                        at@,
                        text,
                        told,
                    )
                    &&& final(mappings)@ == old(self)@.freed(old(mappings)@.after_own(at@, text))
                    &&& final(self)@ == old(self)@
                    &&& final(retry)@ == old(retry)@
                },
                Err(e) => {
                    &&& final(retry)@ == next_delay(old(retry)@)
                    &&& match retry_action(old(retry)@) {
                        RetryAction::Sleep(secs) => {
                            &&& r == InviteStep::Sleep(secs)
                            &&& final(mappings)@ == old(mappings)@
                            &&& final(self)@ == old(self)@
                        },
                        RetryAction::GiveUp => {
                            &&& r matches InviteStep::GaveUp(told) && says(
                                old(self)@.target,
                                old(mappings)@.nick,
                                old(self)@.gave_up_text(e@),
                                final(self)@.target,
                                told,
                            )
                            &&& final(mappings)@ == old(self)@.freed(old(mappings)@)
                        },
                    }
                },
            }),
    {
        match outcome {
            Ok(at) => {
                let told = self.joined(mappings, at);
                let _ = self.stop(mappings);
                InviteStep::Joined(told)
            },
            Err(e) => match retry.failed() {
                RetryAction::Sleep(secs) => InviteStep::Sleep(secs),
                RetryAction::GiveUp => {
                    let nick = mappings.client().nick.clone();
                    let told = self.gave_up(&nick, &e);
                    let _ = self.stop(mappings);
                    InviteStep::GaveUp(told)
                },
            },
        }
    }

    /// Takes in whether the invitation could be rejected, or why not: once it is, the talk is
    /// over.
    pub fn rejected<H>(&self, mappings: &mut Mappings<H>, failure: Option<String>) -> (r: Result<
        (),
        String,
    >)
        requires
            old(mappings).wf(),
        ensures
            final(mappings).wf(),
            old(mappings)@.well_named() ==> final(mappings)@.well_named(),
            (match (failure, r) {
                (Some(e), Err(err)) => err@ == e@ && final(mappings)@ == old(mappings)@,
                (None, Ok(())) => {
                    &&& self@.target is Some
                    &&& final(mappings)@ == self@.freed(old(mappings)@)
                },
                (None, Err(err)) => {
                    &&& self@.target is None
                    &&& err@ == "target should always be set"@
                    &&& final(mappings)@ == old(mappings)@
                },
                (Some(_), Ok(())) => false,
            }),
    {
        match failure {
            Some(e) => Err(e),
            None => self.stop(mappings),
        }
    }
}

impl MessageHandler for InvitationContext {
    type Action = InviteAction;

    open spec fn ready(&self) -> bool {
        self.wf()
    }

    open spec fn handled(
        before: Self,
        nick: Seq<char>,
        message_type: MatrixMessageType,
        message: Seq<char>,
        after: Self,
        action: InviteAction,
    ) -> bool {
        answered(before@, nick, message, after@, action)
    }

    open spec fn targeted(before: Self, target: RoomTargetView, after: Self) -> bool {
        after@ == (InvitationView { target: Some(target), ..before@ })
    }

    fn handle_message(&mut self, nick: &str, message_type: MatrixMessageType, message: &str) -> (r: InviteAction)
    {
        if same(message, "yes") {
            let text = cat2("Joining room ", &self.room_name);
            InviteAction::Join(self.to_irc(nick, &text))
        } else if same(message, "no") {
            proof {
                reveal_strlit("yes");
                reveal_strlit("no");
            }
            match self.to_irc(nick, "Okay") {
                Ok(d) => InviteAction::Reject(d),
                Err(e) => InviteAction::Failed(e),
            }
        } else {
            match self.to_irc(nick, "expecting yes or no") {
                Ok(d) => InviteAction::Again(d),
                Err(e) => InviteAction::Failed(e),
            }
        }
    }

    fn set_target(&mut self, target: RoomTarget) {
        self.talk.set_target(target);
    }
}

/// Trying to join a room: how long to wait before the next try.
#[derive(Debug, Clone, Copy, PartialEq, Eq, Structural)]
pub struct JoinRetry {
    delay: u64,
}

/// What is done when a try to join a room failed.
#[derive(Debug, Clone, Copy, PartialEq, Eq, Structural)]
pub enum RetryAction {
    /// Wait for so many seconds, and try again.
    Sleep(u64),
    GiveUp,
}

/// What is done when a try failed, with how long to wait so far.
pub open spec fn retry_action(delay: nat) -> RetryAction {
    if delay > 1800 {
        RetryAction::GiveUp
    } else {
        RetryAction::Sleep(delay as u64)
    }
}

/// How long to wait after a try failed: twice as long each time, until it is given up.
pub open spec fn next_delay(delay: nat) -> nat {
    if delay > 1800 {
        delay
    } else {
        delay * 2
    }
}

impl View for JoinRetry {
    type V = nat;

    closed spec fn view(&self) -> nat {
        self.delay as nat
    }
}

impl JoinRetry {
    /// Before the first try.
    pub fn new() -> (r: Self)
        ensures
            r@ == 2,
    {
        JoinRetry { delay: 2 }
    }

    /// What is done when a try failed.
    pub fn failed(&mut self) -> (r: RetryAction)
        ensures
            r == retry_action(old(self)@),
            final(self)@ == next_delay(old(self)@),
    {
        let delay: u64 = self.delay;
        if delay > 1800 {
            RetryAction::GiveUp
        } else {
            self.delay = delay * 2;
            RetryAction::Sleep(delay)
        }
    }
}

/// How long to wait after `n` tries failed.
pub open spec fn delay_after(n: nat) -> nat
    decreases n,
{
    if n == 0 {
        2
    } else {
        next_delay(delay_after((n - 1) as nat))
    }
}

/// How long was waited in all after `n` tries failed.
pub open spec fn waited_after(n: nat) -> nat
    decreases n,
{
    if n == 0 {
        0
    } else {
        waited_after((n - 1) as nat) + match retry_action(delay_after((n - 1) as nat)) {
            RetryAction::Sleep(secs) => secs as nat,
            RetryAction::GiveUp => 0,
        }
    }
}

/// A room that cannot be joined is tried ten times more, after pauses that double from two
/// seconds on, 2046 seconds in all; when the eleventh try fails, and with any later one, it is
/// given up.
pub proof fn joining_is_given_up(n: nat)
    ensures
        retry_action(delay_after(n)) == RetryAction::GiveUp <==> n >= 10,
        n <= 10 ==> delay_after(n) == vstd::arithmetic::power2::pow2(n + 1),
        n >= 10 ==> waited_after(n) == 2046,
    decreases n,
{
    reveal_with_fuel(delay_after, 12);
    reveal_with_fuel(waited_after, 12);
    reveal(vstd::arithmetic::power2::pow2);
    vstd::arithmetic::power2::lemma2_to64();
    if n > 11 {
        joining_is_given_up((n - 1) as nat);
    }
}

/// However often joining the room is tried, every end frees the name of the talk, whether the
/// room was joined or not, and leaves the rooms apart; before the end nothing changes. The
/// eleventh try is the last. Rejecting the invitation frees the name too.
pub proof fn every_end_frees_the_name<H>(
    v: InvitationView,
    mappings: MappingsView<H>,
    outcomes: Seq<Result<EventRoomView<H>, Seq<char>>>,
)
    requires
        v.target is Some,
    ensures
        ({
            let name = v.target->0.target;
            let (after, over) = v.after_tries(mappings, 2, outcomes);
            &&& !v.freed(mappings).targets.contains_key(name)
            &&& over ==> !after.targets.contains_key(name)
            &&& over ==> mappings.targets.contains_key(name) && mappings.rooms_apart()
                && mappings.targets.dom().finite() && (forall|id: Seq<char>| #[trigger]
                mappings.rooms.contains_key(id) ==> mappings.rooms[id].target != name)
                ==> after.rooms_apart()
            &&& !over ==> after == mappings
            &&& outcomes.len() > 10 ==> over
        }),
{
    lemma_tries(v, mappings, 0, outcomes);
}

proof fn lemma_tries<H>(
    v: InvitationView,
    mappings: MappingsView<H>,
    n: nat,
    outcomes: Seq<Result<EventRoomView<H>, Seq<char>>>,
)
    requires
        v.target is Some,
        n <= 10,
    ensures
        ({
            let name = v.target->0.target;
            let (after, over) = v.after_tries(mappings, delay_after(n), outcomes);
            &&& over ==> !after.targets.contains_key(name)
            &&& over ==> mappings.targets.contains_key(name) && mappings.rooms_apart()
                && mappings.targets.dom().finite() && (forall|id: Seq<char>| #[trigger]
                mappings.rooms.contains_key(id) ==> mappings.rooms[id].target != name)
                ==> after.rooms_apart()
            &&& !over ==> after == mappings
            &&& n + outcomes.len() > 10 ==> over
        }),
    decreases outcomes.len(),
{
    joining_is_given_up(n);
    let name = v.target->0.target;
    if outcomes.len() > 0 {
        match outcomes[0] {
            Ok(at) => {
                if mappings.targets.contains_key(name) && mappings.rooms_apart()
                    && mappings.targets.dom().finite() && (forall|id: Seq<char>| #[trigger]
                    mappings.rooms.contains_key(id) ==> mappings.rooms[id].target != name) {
                    telling_and_freeing_keep_rooms_apart(mappings, at, v.joined_text(), name);
                }
            },
            Err(_) => {
                if retry_action(delay_after(n)) == RetryAction::GiveUp {
                    if mappings.rooms_apart() && mappings.targets.dom().finite() {
                        rooms_stay_apart(
                            mappings,
                            RoomInfoView { id: Seq::empty(), display_name: None, name: None },
                            Err(Seq::empty()),
                            arbitrary(),
                            name,
                            name,
                        );
                    }
                } else {
                    lemma_tries(v, mappings, n + 1, outcomes.drop_first());
                }
            },
        }
    }
}

/// Whether someone's membership is for the client, and an invitation.
pub open spec fn is_invitation(state_key: Seq<char>, own_id: Seq<char>, invited: bool) -> bool {
    state_key == own_id && invited
}

/// What the client is asked about an invitation.
pub open spec fn invitation_question(room_name: Seq<char>) -> Seq<char> {
    "Got an invitation for "@ + room_name + ", accept? [yes/no]"@
}

/// Asks the client about an invitation; other changes of membership are none of its business.
pub fn on_stripped_state_member<H>(
    mappings: &mut Mappings<H>,
    state_key: &str,
    own_id: Option<&str>,
    invited: bool,
    room_name: &str,
    handler: H,
) -> (r: Result<Option<(InvitationContext, Delivery)>, String>)
    requires
        old(mappings).wf(),
    ensures
        final(mappings).wf(),
        (match r {
            Err(e) => {
                &&& own_id is None
                &&& e@ == "Matrix client without user_id?"@
                &&& final(mappings)@ == old(mappings)@
            },
            Ok(None) => {
                &&& own_id matches Some(id) && !is_invitation(state_key@, id@, invited)
                &&& final(mappings)@ == old(mappings)@
            },
            Ok(Some((invite, d))) => {
                let name = deduped(old(mappings)@.targets.dom(), "invite"@);
                let query = RoomTargetView::fresh(RoomTargetType::Query, name);
                let m = query.own_text(invitation_question(room_name@));
                &&& own_id matches Some(id) && is_invitation(state_key@, id@, invited)
                &&& final(mappings)@ == old(mappings)@.with_handler("invite"@, handler)
                &&& invite.wf()
                &&& invite@ == (InvitationView {
                    room_name: room_name@,
                    target: Some(query),
                })
                &&& messages(d.messages@) == query.text_messages(old(mappings)@.nick, m)
                &&& !d.joining && d.flushes
            },
        }),
{
    let id: &str = match own_id {
        Some(id) => id,
        None => {
            return Err("Matrix client without user_id?".to_owned());
        },
    };
    // not for us, or not an invite
    if !same(state_key, id) || !invited {
        return Ok(None);
    }
    proof {
        reveal_strlit("invite");
        ascii_nick_has_user("invite"@);
    }
    let mut invite = InvitationContext::new(room_name);
    let target = mappings.insert_deduped("invite", handler);
    invite.set_target(target);
    let question = cat3("Got an invitation for ", room_name, ", accept? [yes/no]");
    let nick = mappings.client().nick.clone();
    match invite.to_irc(&nick, &question) {
        Ok(d) => Ok(Some((invite, d))),
        Err(e) => Err(e),
    }
}

/// An invitation is accepted by `yes` alone and rejected by `no` alone, and either is confirmed to
/// the client; anything else is asked for again. A room is joined even if the client could not be
/// told, but no invitation is rejected unless it was.
pub proof fn answers_are_yes_or_no(
    before: InvitationView,
    nick: Seq<char>,
    message: Seq<char>,
    after: InvitationView,
    action: InviteAction,
)
    requires
        answered(before, nick, message, after, action),
    ensures
        after.room_name == before.room_name,
        action is Join <==> message == "yes"@,
        action is Reject <==> message == "no"@ && before.target is Some,
        action is Again <==> message != "yes"@ && message != "no"@ && before.target is Some,
        action is Failed <==> message != "yes"@ && before.target is None,
        action matches InviteAction::Join(r) ==> says(
            before.target,
            nick,
            "Joining room "@ + before.room_name,
            after.target,
            r,
        ),
        action matches InviteAction::Reject(d) ==> says(
            before.target,
            nick,
            "Okay"@,
            after.target,
            Ok(d),
        ),
        action matches InviteAction::Again(d) ==> says(
            before.target,
            nick,
            "expecting yes or no"@,
            after.target,
            Ok(d),
        ),
        action matches InviteAction::Failed(e) ==> e@ == "target should always be set"@,
{
    reveal_strlit("yes");
    reveal_strlit("no");
    assert("yes"@.len() != "no"@.len());
}

/// The client is asked about an invitation exactly when it is the one invited, by the name of the
/// room, and is told of that room by its name how it ended.
pub proof fn invitations_are_for_the_client(
    v: InvitationView,
    state_key: Seq<char>,
    own_id: Seq<char>,
    err: Seq<char>,
)
    ensures
        is_invitation(own_id, own_id, true),
        !is_invitation(state_key, own_id, false),
        state_key != own_id ==> !is_invitation(state_key, own_id, true),
        invitation_question(v.room_name) == "Got an invitation for "@ + v.room_name
            + ", accept? [yes/no]"@,
        v.joined_text() == "Joined room "@ + v.room_name,
        v.gave_up_text(err) == "Gave up joining room "@ + v.room_name + ": "@ + err,
{
}

/// Ending a talk frees the name of its query and no other, and changes no room.
pub proof fn only_the_name_of_the_talk_is_freed<H>(
    v: InvitationView,
    mappings: MappingsView<H>,
    name: Seq<char>,
)
    ensures
        ({
            let after = v.freed(mappings);
            &&& after.rooms == mappings.rooms && after.mt == mappings.mt
            &&& after.nick == mappings.nick && after.user == mappings.user
            &&& v.target matches Some(t) ==> {
                &&& !after.targets.contains_key(t.target)
                &&& name != t.target ==> {
                    &&& after.targets.contains_key(name) <==> mappings.targets.contains_key(name)
                    &&& mappings.targets.contains_key(name) ==> after.targets[name]
                        == mappings.targets[name]
                }
            }
            &&& v.target is None ==> after == mappings
        }),
{
}

/// A failed try is followed by a pause as long as the delay and by another try with twice the
/// delay, until the delay is more than half an hour.
pub proof fn pauses_double(delay: nat)
    ensures
        delay <= 30 * 60 ==> retry_action(delay) == RetryAction::Sleep(delay as u64) && next_delay(
            delay,
        ) == delay + delay,
        delay > 30 * 60 ==> retry_action(delay) == RetryAction::GiveUp && next_delay(delay) == delay,
{
}

/// The end of a row of tries is decided by the first that joined the room: the client is told so
/// there, and the name of the talk is free. One that comes after too long a pause ends it without
/// that; any other only has the next one follow.
pub proof fn tries_follow_one_another<H>(
    v: InvitationView,
    mappings: MappingsView<H>,
    delay: nat,
    at: EventRoomView<H>,
    err: Seq<char>,
    rest: Seq<Result<EventRoomView<H>, Seq<char>>>,
)
    ensures
        v.after_tries(mappings, delay, Seq::empty()) == (mappings, false),
        v.after_tries(mappings, delay, seq![Ok(at)] + rest) == (
            v.freed(mappings.after_own(at, "Joined room "@ + v.room_name)),
            true,
        ),
        delay <= 1800 ==> v.after_tries(mappings, delay, seq![Err(err)] + rest) == v.after_tries(
            mappings,
            delay + delay,
            rest,
        ),
        delay > 1800 ==> v.after_tries(mappings, delay, seq![Err(err)] + rest) == (
            v.freed(mappings),
            true,
        ),
{
    let joined: Seq<Result<EventRoomView<H>, Seq<char>>> = seq![Ok(at)] + rest;
    let failed: Seq<Result<EventRoomView<H>, Seq<char>>> = seq![Err(err)] + rest;
    assert(joined[0] == Ok::<EventRoomView<H>, Seq<char>>(at));
    assert(failed[0] == Err::<EventRoomView<H>, Seq<char>>(err));
    assert(failed.drop_first() =~= rest);
}

/// An invitation keeps the query that it is given, and the name of its room.
pub proof fn invitations_keep_their_query(
    before: InvitationContext,
    target: RoomTargetView,
    after: InvitationContext,
)
    ensures
        before.ready() <==> before.wf(),
        InvitationContext::targeted(before, target, after) <==> after@.target == Some(target)
            && after@.room_name == before@.room_name,
{
}

/// An invitation takes what the client writes to it as an answer, however it was written.
pub proof fn what_is_written_is_an_answer(
    before: InvitationContext,
    nick: Seq<char>,
    message_type: MatrixMessageType,
    message: Seq<char>,
    after: InvitationContext,
    action: InviteAction,
)
    ensures
        InvitationContext::handled(before, nick, message_type, message, after, action) <==> answered(
            before@,
            nick,
            message,
            after@,
            action,
        ),
{
}

} // verus!
