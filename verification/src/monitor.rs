//! The unified mouse monitor: lifecycle, position tracking, the drag gesture
//! machine and the two subscriber registries, composed into one state value
//! that the hook thread drives one raw record at a time.

use vstd::prelude::*;
use crate::drag::{DragEvent, DragState, spec_drag_step, spec_reset};
use crate::errors::MonitorError;
use crate::events::{RawEvent, spec_normalize, normalize};
use crate::lifecycle::{MonitorHandle, StartAction, StopAction, spec_start, spec_stop};
use crate::mouse::{MouseEvent, spec_mouse_event_of, mouse_event_of};
use crate::platform::Platform;
use crate::pointer::{PointerState, spec_track};
use crate::registry::{Registry, Subscription, spec_ids, spec_remove_id};

verus! {

/// One mouse record to deliver, with a snapshot of the subscriber ids it
/// goes to.
#[derive(Debug)]
pub struct MouseDispatch {
    pub event: MouseEvent,
    pub targets: Vec<u32>,
}

/// One derived drag event to deliver, with a snapshot of the subscriber ids
/// it goes to.
#[derive(Debug)]
pub struct DragDispatch {
    pub event: DragEvent,
    pub targets: Vec<u32>,
}

/// Everything one raw record asks the caller to deliver. The caller invokes
/// each target's callback with a clone of the event, outside the monitor's
/// critical section.
#[derive(Debug)]
pub struct DispatchPlan {
    pub mouse: Option<MouseDispatch>,
    pub drag: Option<DragDispatch>,
}

/// The process-wide state of the unified mouse/drag monitor, created once by
/// the composition root and shared with the hook thread.
pub struct MouseMonitor<M, D> {
    pub handle: MonitorHandle,
    pub platform: Platform,
    pub pointer: PointerState,
    pub drag: DragState,
    pub mouse_subs: Registry<M>,
    pub drag_subs: Registry<D>,
}

/// What one raw record does to the monitor: nothing at all while stopped or
/// for records outside the mouse domain; otherwise the record is normalized,
/// backfilled through the position tracker, run through the gesture machine,
/// and handed out together with whatever drag event that step derived.
pub open spec fn spec_handle_event<M, D>(m: MouseMonitor<M, D>, raw: RawEvent, ts: u64) -> (
    MouseMonitor<M, D>,
    Option<MouseEvent>,
    Option<DragEvent>,
) {
    if !m.handle.running {
        (m, None, None)
    } else {
        match spec_normalize(raw, ts) {
            None => (m, None, None),
            Some(ev) => match spec_mouse_event_of(ev, m.platform) {
                None => (m, None, None),
                Some(me0) => {
                    let (ps, me) = spec_track(m.pointer, me0);
                    let (ds, dout) = spec_drag_step(m.drag, me);
                    (MouseMonitor { pointer: ps, drag: ds, ..m }, Some(me), dout)
                },
            },
        }
    }
}

impl<M, D> MouseMonitor<M, D> {
    /// The structural invariant of the composed state.
    pub open spec fn wf(self) -> bool {
        &&& self.handle.wf()
        &&& self.drag.wf()
        &&& self.mouse_subs.wf()
        &&& self.drag_subs.wf()
    }

    /// A stopped monitor with no subscribers, an empty position tracker, an
    /// idle gesture machine with the default five-pixel threshold, and the
    /// given platform tag.
    pub fn new(platform: Platform) -> (r: MouseMonitor<M, D>)
        ensures
            r.wf(),
            !r.handle.running,
            r.platform == platform,
            r.pointer.last is None,
            !r.drag.mouse_pressed && !r.drag.is_dragging,
            r.drag.drag_threshold == 5,
            r.mouse_subs.next_id == 0 && r.mouse_subs.subs@.len() == 0,
            r.drag_subs.next_id == 0 && r.drag_subs.subs@.len() == 0,
    {
        MouseMonitor {
            handle: MonitorHandle::new(),
            platform,
            pointer: PointerState::new(),
            drag: DragState::new(),
            mouse_subs: Registry::new(),
            drag_subs: Registry::new(),
        }
    }

    /// Starts monitoring. Idempotent: the action asks for a hook exactly
    /// when none was running, so a hook is never installed twice; everything
    /// else is left as it is, and the call always succeeds.
    pub fn start_mouse_monitor(&mut self) -> (r: Result<StartAction, MonitorError>)
        requires
            old(self).wf(),
        ensures
            final(self).wf(),
            r is Ok,
            (final(self).handle, r->Ok_0) == spec_start(old(self).handle),
            final(self).handle.running,
            r->Ok_0 == StartAction::InstallHook <==> !old(self).handle.running,
            final(self).platform == old(self).platform,
            final(self).pointer == old(self).pointer,
            final(self).drag == old(self).drag,
            final(self).mouse_subs == old(self).mouse_subs,
            final(self).drag_subs == old(self).drag_subs,
    {
        Ok(self.handle.start())
    }

    /// Stops monitoring and returns every singleton to its idle state: the
    /// tracker forgets its position, the gesture machine goes idle and both
    /// registries are cleared — their id counters stay, so ids are never
    /// reused. Idempotent: the action asks for a shutdown-and-join exactly
    /// when a worker was running, and the call always succeeds.
    pub fn stop_mouse_monitor(&mut self) -> (r: Result<StopAction, MonitorError>)
        requires
            old(self).wf(),
        ensures
            final(self).wf(),
            r is Ok,
            (final(self).handle, r->Ok_0) == spec_stop(old(self).handle),
            !final(self).handle.running,
            r->Ok_0 == StopAction::ShutdownWorker <==> old(self).handle.running,
            final(self).platform == old(self).platform,
            final(self).pointer.last is None,
            final(self).drag == spec_reset(old(self).drag),
            final(self).mouse_subs.next_id == old(self).mouse_subs.next_id,
            final(self).mouse_subs.subs@.len() == 0,
            final(self).drag_subs.next_id == old(self).drag_subs.next_id,
            final(self).drag_subs.subs@.len() == 0,
    {
        let action = self.handle.stop();
        self.pointer.last = None;
        self.drag.reset();
        self.mouse_subs.clear();
        self.drag_subs.clear();
        Ok(action)
    }

    /// Whether the monitor is running.
    pub fn is_monitoring(&self) -> (r: bool)
        ensures
            r == self.handle.running,
    {
        self.handle.is_running()
    }

    /// Registers a mouse subscriber and returns its fresh id, strictly
    /// greater than every id this registry ever issued.
    pub fn on_mouse_event(&mut self, callback: M) -> (r: Result<u32, MonitorError>)
        requires
            old(self).wf(),
            old(self).mouse_subs.next_id < u32::MAX,
        ensures
            final(self).wf(),
            r is Ok,
            r->Ok_0 == old(self).mouse_subs.next_id + 1,
            final(self).mouse_subs.next_id == r->Ok_0,
            final(self).mouse_subs.subs@ == old(self).mouse_subs.subs@.push(
                Subscription { id: r->Ok_0, callback },
            ),
            final(self).mouse_subs.subs@.len() == old(self).mouse_subs.subs@.len() + 1,
            forall|i: int|
                0 <= i < old(self).mouse_subs.subs@.len() ==> (#[trigger] old(
                    self,
                ).mouse_subs.subs@[i].id) < r->Ok_0,
            final(self).handle == old(self).handle,
            final(self).platform == old(self).platform,
            final(self).pointer == old(self).pointer,
            final(self).drag == old(self).drag,
            final(self).drag_subs == old(self).drag_subs,
    {
        Ok(self.mouse_subs.register(callback))
    }

    /// Removes a mouse subscriber; false when the id is unknown or already
    /// removed.
    pub fn remove_mouse_event_listener(&mut self, id: u32) -> (r: Result<bool, MonitorError>)
        requires
            old(self).wf(),
        ensures
            final(self).wf(),
            r is Ok,
            r->Ok_0 <==> exists|k: int|
                0 <= k < old(self).mouse_subs.subs@.len() && (#[trigger] old(
                    self,
                ).mouse_subs.subs@[k].id) == id,
            final(self).mouse_subs.subs@ == spec_remove_id(old(self).mouse_subs.subs@, id),
            final(self).mouse_subs.next_id == old(self).mouse_subs.next_id,
            final(self).handle == old(self).handle,
            final(self).platform == old(self).platform,
            final(self).pointer == old(self).pointer,
            final(self).drag == old(self).drag,
            final(self).drag_subs == old(self).drag_subs,
    {
        Ok(self.mouse_subs.unregister(id))
    }

    /// Registers a drag subscriber and returns its fresh id, strictly
    /// greater than every id this registry ever issued.
    pub fn on_drag_event(&mut self, callback: D) -> (r: Result<u32, MonitorError>)
        requires
            old(self).wf(),
            old(self).drag_subs.next_id < u32::MAX,
        ensures
            final(self).wf(),
            r is Ok,
            r->Ok_0 == old(self).drag_subs.next_id + 1,
            final(self).drag_subs.next_id == r->Ok_0,
            final(self).drag_subs.subs@ == old(self).drag_subs.subs@.push(
                Subscription { id: r->Ok_0, callback },
            ),
            final(self).drag_subs.subs@.len() == old(self).drag_subs.subs@.len() + 1,
            forall|i: int|
                0 <= i < old(self).drag_subs.subs@.len() ==> (#[trigger] old(
                    self,
                ).drag_subs.subs@[i].id) < r->Ok_0,
            final(self).handle == old(self).handle,
            final(self).platform == old(self).platform,
            final(self).pointer == old(self).pointer,
            final(self).drag == old(self).drag,
            final(self).mouse_subs == old(self).mouse_subs,
    {
        Ok(self.drag_subs.register(callback))
    }

    /// Removes a drag subscriber; false when the id is unknown or already
    /// removed.
    pub fn remove_drag_event_listener(&mut self, id: u32) -> (r: Result<bool, MonitorError>)
        requires
            old(self).wf(),
        ensures
            final(self).wf(),
            r is Ok,
            r->Ok_0 <==> exists|k: int|
                0 <= k < old(self).drag_subs.subs@.len() && (#[trigger] old(
                    self,
                ).drag_subs.subs@[k].id) == id,
            final(self).drag_subs.subs@ == spec_remove_id(old(self).drag_subs.subs@, id),
            final(self).drag_subs.next_id == old(self).drag_subs.next_id,
            final(self).handle == old(self).handle,
            final(self).platform == old(self).platform,
            final(self).pointer == old(self).pointer,
            final(self).drag == old(self).drag,
            final(self).mouse_subs == old(self).mouse_subs,
    {
        Ok(self.drag_subs.unregister(id))
    }

    /// Runs one raw platform record through the whole pipeline and returns
    /// what to deliver: the backfilled mouse record for every mouse-domain
    /// record, plus the drag event the gesture machine derived, each with a
    /// snapshot of its subscribers. A stopped monitor delivers nothing and
    /// stays unchanged.
    pub fn handle_event(&mut self, raw: &RawEvent, timestamp: u64) -> (r: DispatchPlan)
        requires
            old(self).wf(),
        ensures
            final(self).wf(),
            *final(self) == spec_handle_event(*old(self), *raw, timestamp).0,
            ({
                let me = spec_handle_event(*old(self), *raw, timestamp).1;
                match r.mouse {
                    Some(d) => me == Some(d.event) && d.targets@ == spec_ids(
                        old(self).mouse_subs.subs@,
                    ),
                    None => me is None,
                }
            }),
            ({
                let de = spec_handle_event(*old(self), *raw, timestamp).2;
                match r.drag {
                    Some(d) => de == Some(d.event) && d.targets@ == spec_ids(
                        old(self).drag_subs.subs@,
                    ),
                    None => de is None,
                }
            }),
    {
        if !self.handle.is_running() {
            return DispatchPlan { mouse: None, drag: None };
        }
        let ev = match normalize(raw, timestamp) {
            Some(e) => e,
            None => {
                return DispatchPlan { mouse: None, drag: None };
            },
        };
        let mut me = match mouse_event_of(&ev, self.platform) {
            Some(m) => m,
            None => {
                return DispatchPlan { mouse: None, drag: None };
            },
        };
        self.pointer.on_event(&mut me);
        let dout = self.drag.step(&me);
        proof {
            crate::drag::lemma_step_preserves_wf(old(self).drag, me);
        }
        let drag = match dout {
            Some(d) => Some(DragDispatch { event: d, targets: self.drag_subs.ids() }),
            None => None,
        };
        DispatchPlan { mouse: Some(MouseDispatch { event: me, targets: self.mouse_subs.ids() }), drag }
    }
}

/// A non-move mouse record that follows a move through the running pipeline
/// comes out backfilled to exactly the moved-to position; the move itself
/// passes through with its own coordinates.
pub proof fn lemma_pipeline_backfills_after_move<M, D>(
    m: MouseMonitor<M, D>,
    x: i64,
    y: i64,
    raw: RawEvent,
    ts1: u64,
    ts2: u64,
)
    requires
        m.handle.running,
        raw is RawButtonPress || raw is RawButtonRelease || raw is RawWheel,
    ensures
        ({
            let (m1, me1, _) = spec_handle_event(m, RawEvent::RawMove { x, y }, ts1);
            let (_, me2, _) = spec_handle_event(m1, raw, ts2);
            &&& me1 == Some(
                MouseEvent {
                    event_type: crate::mouse::MouseEventType::MouseMove,
                    x,
                    y,
                    button: 0,
                    timestamp: ts1,
                    platform: m.platform,
                },
            )
            &&& me2 is Some
            &&& me2->0.x == x && me2->0.y == y
        }),
{
}

/// Before any move has been seen, a non-move record passes through the
/// running pipeline with its raw zero coordinates unchanged.
pub proof fn lemma_pipeline_no_move_no_backfill<M, D>(m: MouseMonitor<M, D>, raw: RawEvent, ts: u64)
    requires
        m.handle.running,
        m.pointer.last is None,
        raw is RawButtonPress || raw is RawButtonRelease || raw is RawWheel,
    ensures
        ({
            let (_, me, _) = spec_handle_event(m, raw, ts);
            me is Some && me->0.x == 0 && me->0.y == 0
        }),
{
}

/// A monitor that is not running neither changes nor delivers anything: once
/// stop has returned (it ensures `running` is false), injecting further
/// records dispatches to nobody.
pub proof fn lemma_stopped_monitor_dispatches_nothing<M, D>(
    m: MouseMonitor<M, D>,
    raw: RawEvent,
    ts: u64,
)
    requires
        !m.handle.running,
    ensures
        spec_handle_event(m, raw, ts) == (m, None::<MouseEvent>, None::<DragEvent>),
{
}

} // verus!
