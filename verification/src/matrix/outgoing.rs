//! What the client says in a room, on its way to Matrix.

use vstd::prelude::*;
use vstd::string::*;

use crate::matrix::room_mappings::{MatrixMessageType, MessageHandler};
use crate::matrix::room_target::{RoomTarget, RoomTargetView};
use crate::text::cat3;

verus! {

/// A room that the client can speak in while the user is in it.
#[derive(Debug)]
pub struct OutgoingRoom {
    pub room_id: String,
    /// whether the user is in the room
    pub joined: bool,
}

/// What is sent to a room.
#[derive(Debug)]
pub enum OutgoingContent {
    /// A plain text.
    Text(String),
    /// An emote.
    Emote(String),
    /// A plain notice.
    Notice(String),
}

impl OutgoingContent {
    /// Of which kind it is, and what it says.
    pub open spec fn says(self) -> (MatrixMessageType, Seq<char>) {
        match self {
            OutgoingContent::Text(body) => (MatrixMessageType::Text, body@),
            OutgoingContent::Emote(body) => (MatrixMessageType::Emote, body@),
            OutgoingContent::Notice(body) => (MatrixMessageType::Notice, body@),
        }
    }
}

impl MessageHandler for OutgoingRoom {
    type Action = Result<OutgoingContent, String>;

    open spec fn ready(&self) -> bool {
        true
    }

    open spec fn handled(
        before: Self,
        nick: Seq<char>,
        message_type: MatrixMessageType,
        message: Seq<char>,
        after: Self,
        action: Result<OutgoingContent, String>,
    ) -> bool {
        &&& after == before
        &&& match action {
            Ok(content) => before.joined && content.says() == (message_type, message),
            Err(e) => {
                &&& !before.joined
                &&& e@ == "Room "@ + before.room_id@ + " was not joined"@
            },
        }
    }

    open spec fn targeted(before: Self, target: RoomTargetView, after: Self) -> bool {
        after == before
    }

    fn handle_message(&mut self, nick: &str, message_type: MatrixMessageType, message: &str) -> (r: Result<
        OutgoingContent,
        String,
    >) {
        if !self.joined {
            return Err(cat3("Room ", &self.room_id, " was not joined"));
        }
        Ok(
            match message_type {
                MatrixMessageType::Text => OutgoingContent::Text(message.to_owned()),
                MatrixMessageType::Emote => OutgoingContent::Emote(message.to_owned()),
                MatrixMessageType::Notice => OutgoingContent::Notice(message.to_owned()),
            },
        )
    }

    // can't remove room from irc, we don't want (and can't anyway) keep target in room
    fn set_target(&mut self, target: RoomTarget) {
    }
}

/// What the client says goes to the room in the kind that it was said in, and whole.
pub proof fn kinds_are_kept(body: String)
    ensures
        OutgoingContent::Text(body).says() == (MatrixMessageType::Text, body@),
        OutgoingContent::Emote(body).says() == (MatrixMessageType::Emote, body@),
        OutgoingContent::Notice(body).says() == (MatrixMessageType::Notice, body@),
{
}

/// A room that the user is in takes all that the client says, as one content of that kind and
/// text; one that the user is not in takes nothing. The room stays as it is.
pub proof fn joined_rooms_take_all(
    room: OutgoingRoom,
    nick: Seq<char>,
    kind: MatrixMessageType,
    message: Seq<char>,
    after: OutgoingRoom,
    action: Result<OutgoingContent, String>,
)
    requires
        OutgoingRoom::handled(room, nick, kind, message, after, action),
    ensures
        after == room,
        action is Ok <==> room.joined,
        (match action {
            Ok(OutgoingContent::Text(body)) => kind == MatrixMessageType::Text && body@ == message,
            Ok(OutgoingContent::Emote(body)) => kind == MatrixMessageType::Emote && body@ == message,
            Ok(OutgoingContent::Notice(body)) => kind == MatrixMessageType::Notice && body@ == message,
            Err(e) => e@ == "Room "@ + room.room_id@ + " was not joined"@,
        }),
{
}

/// A room that the client writes to takes no notice of the name that it has there, and can be
/// written to at any time.
pub proof fn rooms_do_not_keep_their_name(
    before: OutgoingRoom,
    target: RoomTargetView,
    after: OutgoingRoom,
)
    ensures
        before.ready(),
        OutgoingRoom::targeted(before, target, after) <==> after == before,
{
}

} // verus!
