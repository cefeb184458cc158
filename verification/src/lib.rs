//! The logic of an IRC server that bridges to Matrix.

pub mod args;
pub mod ircd;
pub mod matrirc;
pub mod matrix;
pub mod name_map;
pub mod state;
pub mod text;
