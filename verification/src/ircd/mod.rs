//! The IRC side of the bridge.

pub mod auth;
pub mod chan;
pub mod client;
pub mod login;
pub mod proto;
pub mod session;
