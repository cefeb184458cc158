//! The Matrix side of the bridge.

pub mod invite;
pub mod outgoing;
pub mod percent;
pub mod room_mappings;
pub mod room_target;
pub mod sync;
pub mod sync_reaction;
pub mod sync_room_member;
pub mod sync_room_message;
pub mod talk;
pub mod time;
pub mod verification;
