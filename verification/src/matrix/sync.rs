//! What is done each time the server told of new events.

use std::collections::VecDeque;

use vstd::prelude::*;

use crate::ircd::proto::messages;
use crate::matrirc::{Matrirc, MatrircView, Running};
use crate::matrix::room_mappings::{sync_views, SyncRoom, TargetRefView};
use crate::matrix::room_target::{Delivery, RoomTargetType};

verus! {

/// Whether to go on asking the server for events.
#[derive(Debug, Clone, Copy, PartialEq, Eq, Structural)]
pub enum LoopCtrl {
    Continue,
    Break,
}

/// What is done when the server told of new events.
pub struct SyncStep {
    pub ctrl: LoopCtrl,
    /// what the client is to be sent
    pub told: Option<Delivery>,
    /// why the rooms could not all be gone through
    pub error: Option<String>,
}

/// Decides whether to go on asking the server for events. The first time, the joined rooms are
/// gone through; where one cannot be used, or the session was stopped, asking ends. `rooms` is
/// not used later on.
pub fn matrix_sync<H>(matrirc: &mut Matrirc<H>, rooms: VecDeque<SyncRoom<H>>) -> (r: SyncStep)
    requires
        old(matrirc).wf(),
        old(matrirc)@.mappings.well_named(),
    ensures
        final(matrirc).wf(),
        final(matrirc)@.mappings.well_named(),
        ({
            let before = old(matrirc)@;
            let after = final(matrirc)@;
            match before.running {
                Running::First => {
                    let views = sync_views(rooms@);
                    let synced = before.mappings.synced(views);
                    let mt = before.mappings.mt;
                    let m = mt.own_text("Finished initial room sync"@);
                    match before.mappings.sync_error(views) {
                        None => {
                            &&& r.ctrl == LoopCtrl::Continue && r.error is None
                            &&& r.told matches Some(d) && {
                                &&& messages(d.messages@) == mt.text_messages(before.mappings.nick, m)
                                &&& d.joining == (mt.target_type == RoomTargetType::LeftChan)
                                &&& d.flushes == mt.sends_at_once()
                            }
                            &&& after == (MatrircView {
                                running: Running::Continue,
                                mappings: synced.with_target(
                                    TargetRefView::Matrirc,
                                    mt.taken_in(m),
                                ),
                                ..before
                            })
                        },
                        Some(e) => {
                            &&& r.ctrl == LoopCtrl::Break && r.told is None
                            &&& r.error matches Some(t) && t@ == e
                            &&& after == (MatrircView {
                                running: Running::Continue,
                                mappings: synced,
                                ..before
                            })
                        },
                    }
                },
                Running::Continue => {
                    &&& r.ctrl == LoopCtrl::Continue && r.told is None && r.error is None
                    &&& after == before
                },
                Running::Break => {
                    &&& r.ctrl == LoopCtrl::Break && r.told is None && r.error is None
                    &&& after == before
                },
            }
        }),
{
    match matrirc.running() {
        Running::First => match matrirc.mappings_mut().sync_rooms(rooms) {
            Ok(d) => SyncStep { ctrl: LoopCtrl::Continue, told: Some(d), error: None },
            Err(e) => SyncStep { ctrl: LoopCtrl::Break, told: None, error: Some(e) },
        },
        Running::Continue => SyncStep { ctrl: LoopCtrl::Continue, told: None, error: None },
        Running::Break => SyncStep { ctrl: LoopCtrl::Break, told: None, error: None },
    }
}

} // verus!
