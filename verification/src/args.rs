//! Options of the bridge.

use vstd::prelude::*;

verus! {

/// Which rooms the client joins by itself.
#[derive(Debug, Clone, Copy, PartialEq, Eq, Structural)]
pub enum AutoJoinOptions {
    Nothing,
    Queries,
    Channels,
    All,
}

impl AutoJoinOptions {
    /// Whether queries are joined.
    pub fn join_queries(&self) -> (r: bool)
        ensures
            r == (*self == AutoJoinOptions::Queries || *self == AutoJoinOptions::All),
    {
        *self == AutoJoinOptions::Queries || *self == AutoJoinOptions::All
    }

    /// Whether channels are joined.
    pub fn join_channels(&self) -> (r: bool)
        ensures
            r == (*self == AutoJoinOptions::Channels || *self == AutoJoinOptions::All),
    {
        *self == AutoJoinOptions::Channels || *self == AutoJoinOptions::All
    }
}

} // verus!
