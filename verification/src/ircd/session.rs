//! The beginning and the end of a session, as the client is told of them.

use vstd::prelude::*;
use vstd::string::*;

use crate::ircd::login::{said, say};
use crate::ircd::proto::{error, message_from, CommandView, Message};
use crate::text::cat2;

verus! {

/// What a client is sent that could not log in.
pub fn auth_failed(e: &str) -> (r: Message)
    ensures
        r@ == message_from(None, CommandView::ERROR("Closing session: "@ + e@)),
{
    error(&cat2("Closing session: ", e))
}

/// What a client is sent that is logged in.
pub fn ready(nick: &str) -> (r: Message)
    ensures
        r@ == said(nick@, "okay"@),
{
    say(nick, "okay")
}

/// What ended a session.
#[derive(Debug, Clone, Copy, PartialEq, Eq, Structural)]
pub enum SessionEnd {
    /// Nothing can be sent to the client any more.
    Writer,
    /// No events come from Matrix any more.
    Sync,
    /// Nothing comes from the client any more.
    Reader,
}

impl SessionEnd {
    /// What the client is told.
    pub open spec fn told(self) -> Seq<char> {
        match self {
            SessionEnd::Writer => "irc writer task stopped"@,
            SessionEnd::Sync => "matrix sync task stopped"@,
            SessionEnd::Reader => "Reached end of handle_client"@,
        }
    }

    /// What the client is told.
    pub fn reason(&self) -> (r: String)
        ensures
            r@ == self.told(),
    {
        match self {
            SessionEnd::Writer => "irc writer task stopped".to_owned(),
            SessionEnd::Sync => "matrix sync task stopped".to_owned(),
            SessionEnd::Reader => "Reached end of handle_client".to_owned(),
        }
    }
}

/// Each end of a session has a reason of its own.
pub proof fn ends_are_told_apart(a: SessionEnd, b: SessionEnd)
    ensures
        a.told() == b.told() ==> a == b,
        SessionEnd::Writer.told() == "irc writer task stopped"@,
        SessionEnd::Sync.told() == "matrix sync task stopped"@,
        SessionEnd::Reader.told() == "Reached end of handle_client"@,
{
    reveal_strlit("irc writer task stopped");
    reveal_strlit("matrix sync task stopped");
    reveal_strlit("Reached end of handle_client");
    assert("irc writer task stopped"@[0] != "matrix sync task stopped"@[0]);
    assert("irc writer task stopped"@[0] != "Reached end of handle_client"@[0]);
    assert("matrix sync task stopped"@[0] != "Reached end of handle_client"@[0]);
}

} // verus!
