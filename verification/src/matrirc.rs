//! The state of a session.

use vstd::prelude::*;
use vstd::string::*;

use crate::ircd::client::IrcClient;
use crate::ircd::proto::{error, message_from, opt_text, CommandView, Message};
use crate::matrix::room_mappings::{Mappings, MappingsView};
use crate::matrix::room_target::{text_map, RoomTargetType, RoomTargetView};
use crate::name_map::NameMap;

verus! {

/// How far a session is.
#[derive(Debug, Clone, Copy, PartialEq, Eq, Structural)]
pub enum Running {
    First,
    Continue,
    Break,
}

impl Running {
    /// How far the session is once it was asked.
    pub open spec fn asked(self) -> Running {
        match self {
            Running::First => Running::Continue,
            other => other,
        }
    }
}

/// client state struct
pub struct Matrirc<H> {
    /// stop indicator
    running: Running,
    /// room mappings in both directions
    mappings: Mappings<H>,
    /// texts of past events, by event id
    messages: NameMap<String>,
}

/// What a [`Matrirc`] holds.
#[verifier::ext_equal]
pub struct MatrircView<H> {
    pub running: Running,
    pub mappings: MappingsView<H>,
    /// From event ids to what the client was told of them.
    pub messages: Map<Seq<char>, Seq<char>>,
}

impl<H> View for Matrirc<H> {
    type V = MatrircView<H>;

    closed spec fn view(&self) -> MatrircView<H> {
        MatrircView {
            running: self.running,
            mappings: self.mappings@,
            messages: text_map(self.messages@),
        }
    }
}

impl<H> Matrirc<H> {
    /// The parts are in order.
    pub closed spec fn wf(self) -> bool {
        &&& self.mappings.wf()
        &&& self.messages.wf()
    }

    /// A session that just began.
    pub fn new(irc: IrcClient) -> (r: Self)
        ensures
            r.wf(),
            r@ == (MatrircView {
                running: Running::First,
                mappings: MappingsView {
                    rooms: Map::<Seq<char>, RoomTargetView>::empty(),
                    targets: Map::<Seq<char>, H>::empty(),
                    mt: RoomTargetView::fresh(RoomTargetType::Query, "matrirc"@),
                    nick: irc.nick@,
                    user: irc.user@,
                },
                messages: Map::<Seq<char>, Seq<char>>::empty(),
            }),
            r@.mappings.well_named(),
    {
        let r = Matrirc {
            running: Running::First,
            mappings: Mappings::new(irc),
            messages: NameMap::new(),
        };
        assert(r@.messages =~= Map::<Seq<char>, Seq<char>>::empty());
        r
    }

    /// The client of the session.
    pub fn irc(&self) -> (r: &IrcClient)
        ensures
            r.nick@ == self@.mappings.nick,
            r.user@ == self@.mappings.user,
    {
        self.mappings.client()
    }

    /// The room mappings of the session.
    pub fn mappings(&self) -> (r: &Mappings<H>)
        requires
            self.wf(),
        ensures
            r.wf(),
            r@ == self@.mappings,
    {
        &self.mappings
    }

    /// The room mappings of the session, to be changed in place.
    pub fn mappings_mut(&mut self) -> (r: &mut Mappings<H>)
        requires
            old(self).wf(),
        ensures
            r.wf(),
            r@ == old(self)@.mappings,
            final(self)@ == (MatrircView { mappings: final(r)@, ..old(self)@ }),
            final(r).wf() ==> final(self).wf(),
    {
        &mut self.mappings
    }

    /// Whether nobody has asked yet how far the session is.
    pub fn is_first(&self) -> (r: bool)
        ensures
            r == (self@.running == Running::First),
    {
        match self.running {
            Running::First => true,
            _ => false,
        }
    }

    /// How far the session is. Only the first who asks is told that it is the first.
    pub fn running(&mut self) -> (r: Running)
        requires
            old(self).wf(),
        ensures
            final(self).wf(),
            r == old(self)@.running,
            final(self)@ == (MatrircView { running: old(self)@.running.asked(), ..old(self)@ }),
    {
        match self.running {
            Running::First => {
                self.running = Running::Continue;
                Running::First
            },
            run => run,
        }
    }

    /// Stops the session, and gives the message that tells the client why.
    pub fn stop(&mut self, reason: &str) -> (r: Message)
        requires
            old(self).wf(),
        ensures
            final(self).wf(),
            final(self)@ == (MatrircView { running: Running::Break, ..old(self)@ }),
            r@ == message_from(None, CommandView::ERROR(reason@)),
    {
        self.running = Running::Break;
        error(reason)
    }

    /// Remembers what the client was told of an event.
    pub fn message_put(&mut self, event_id: &str, message: &str)
        requires
            old(self).wf(),
        ensures
            final(self).wf(),
            final(self)@ == (MatrircView {
                messages: old(self)@.messages.insert(event_id@, message@),
                ..old(self)@
            }),
    {
        let text: String = message.to_owned();
        let ghost before = self.messages@;
        self.messages.insert(event_id.to_owned(), text);
        assert(text_map(self.messages@) =~= text_map(before).insert(event_id@, message@));
    }

    /// What the client was told of an event, if it was.
    pub fn message_get(&self, event_id: &str) -> (r: Option<String>)
        requires
            self.wf(),
        ensures
            opt_text(r) == self@.told(event_id@),
    {
        match self.messages.get(event_id) {
            Some(message) => Some(message.clone()),
            None => None,
        }
    }
}

impl<H> MatrircView<H> {
    /// What the client was told of an event, if it was.
    pub open spec fn told(self, event_id: Seq<char>) -> Option<Seq<char>> {
        if self.messages.contains_key(event_id) {
            Some(self.messages[event_id])
        } else {
            None
        }
    }
}

/// How far a session is after it was asked `n` times.
pub open spec fn asked_times(r: Running, n: nat) -> Running
    decreases n,
{
    if n == 0 {
        r
    } else {
        asked_times(r, (n - 1) as nat).asked()
    }
}

/// Only who asks first is told that it is the first, and a session that was stopped stays
/// stopped, however often it is asked.
pub proof fn first_comes_once(r: Running, n: nat)
    ensures
        n > 0 ==> asked_times(r, n) != Running::First,
        asked_times(Running::Break, n) == Running::Break,
        r != Running::Break ==> asked_times(r, n) != Running::Break,
    decreases n,
{
    if n > 0 {
        first_comes_once(r, (n - 1) as nat);
    }
}

/// What was remembered last of an event is what is given back, and what was remembered of
/// others stays.
pub proof fn get_gives_back_put<H>(
    v: MatrircView<H>,
    event_id: Seq<char>,
    message: Seq<char>,
    other: Seq<char>,
)
    ensures
        ({
            let put = MatrircView { messages: v.messages.insert(event_id, message), ..v };
            &&& put.told(event_id) == Some(message)
            &&& other != event_id ==> put.told(other) == v.told(other)
        }),
{
}

/// A session goes on once it began, until it is stopped.
pub proof fn sessions_go_on()
    ensures
        Running::First.asked() == Running::Continue,
        Running::Continue.asked() == Running::Continue,
        Running::Break.asked() == Running::Break,
{
}

} // verus!
