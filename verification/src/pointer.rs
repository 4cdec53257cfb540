//! The position tracker: remembers the last pointer position and backfills
//! it into mouse records that arrive without coordinates.

use vstd::prelude::*;
use crate::events::Pos;
use crate::mouse::{MouseEvent, MouseEventType};

verus! {

/// The single most recent pointer position, or nothing before the first
/// move. Last write wins; no history is kept.
#[derive(Clone, Copy, PartialEq, Eq, Structural, Debug)]
pub struct PointerState {
    pub last: Option<Pos>,
}

/// What one tracked event does: a move stores its position; any other record
/// that still carries the unset zero coordinates gets the stored position
/// written into it, and is left alone when no move was ever seen.
pub open spec fn spec_track(ps: PointerState, ev: MouseEvent) -> (PointerState, MouseEvent) {
    if ev.event_type == MouseEventType::MouseMove {
        (PointerState { last: Some(Pos { x: ev.x, y: ev.y }) }, ev)
    } else if ev.x == 0 && ev.y == 0 {
        match ps.last {
            Some(p) => (ps, MouseEvent { x: p.x, y: p.y, ..ev }),
            None => (ps, ev),
        }
    } else {
        (ps, ev)
    }
}

impl PointerState {
    /// A tracker that has seen nothing yet.
    pub fn new() -> (r: PointerState)
        ensures
            r.last is None,
    {
        PointerState { last: None }
    }

    /// Runs one mouse record through the tracker: stores a move's position,
    /// backfills the stored position into a coordinate-less record.
    pub fn on_event(&mut self, ev: &mut MouseEvent)
        ensures
            (*final(self), *final(ev)) == spec_track(*old(self), *old(ev)),
    {
        if ev.event_type == MouseEventType::MouseMove {
            self.last = Some(Pos { x: ev.x, y: ev.y });
        } else if ev.x == 0 && ev.y == 0 {
            match self.last {
                Some(p) => {
                    ev.x = p.x;
                    ev.y = p.y;
                },
                None => {},
            }
        }
    }
}

/// Any non-move record that follows a move is backfilled to exactly the
/// moved-to position.
pub proof fn lemma_backfill_follows_move(ps: PointerState, mv: MouseEvent, ev: MouseEvent)
    requires
        mv.event_type == MouseEventType::MouseMove,
        ev.event_type != MouseEventType::MouseMove,
        ev.x == 0 && ev.y == 0,
    ensures
        ({
            let (ps1, _) = spec_track(ps, mv);
            let (_, ev1) = spec_track(ps1, ev);
            ev1.x == mv.x && ev1.y == mv.y
        }),
{
}

/// Before any move has been seen, tracking leaves a record unchanged.
pub proof fn lemma_no_move_no_backfill(ps: PointerState, ev: MouseEvent)
    requires
        ps.last is None,
        ev.event_type != MouseEventType::MouseMove,
    ensures
        spec_track(ps, ev).1 == ev,
{
}

} // verus!
