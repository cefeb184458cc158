//! The client that a session belongs to.

use vstd::prelude::*;
use vstd::string::*;

use crate::ircd::proto::{has_user, privmsg, privmsg_from, Message};

verus! {

/// Who is on the IRC side of a session.
#[derive(Debug)]
pub struct IrcClient {
    pub nick: String,
    pub user: String,
}

impl IrcClient {
    /// A client with a nick and a user name.
    pub fn new(nick: String, user: String) -> (r: IrcClient)
        ensures
            r.nick@ == nick@,
            r.user@ == user@,
    {
        IrcClient { nick, user }
    }

    /// A `PRIVMSG` for the client.
    pub fn send_privmsg(&self, from: &str, target: &str, msg: &str) -> (r: Message)
        requires
            has_user(from@),
        ensures
            r@ == privmsg_from(from@, target@, msg@),
    {
        privmsg(from, target, msg)
    }
}

} // verus!
