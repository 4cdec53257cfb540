//! The drag gesture state machine: derives drag start / move / end events
//! from raw button and move sequences, with a distance threshold that
//! absorbs click jitter.

use vstd::prelude::*;
use crate::events::Pos;
use crate::mouse::{MouseEvent, MouseEventType};
use crate::platform::Platform;

verus! {

/// The kind of a derived drag event.
#[derive(Clone, Copy, PartialEq, Eq, Structural, Debug)]
pub enum DragEventType {
    DragStart,
    DragMove,
    DragEnd,
}

/// The name a drag event kind is reported under.
pub open spec fn spec_drag_event_type_name(t: DragEventType) -> Seq<char> {
    match t {
        DragEventType::DragStart => "dragstart"@,
        DragEventType::DragMove => "dragmove"@,
        DragEventType::DragEnd => "dragend"@,
    }
}

pub fn drag_event_type_name(t: DragEventType) -> (s: &'static str)
    ensures
        s@ == spec_drag_event_type_name(t),
{
    match t {
        DragEventType::DragStart => "dragstart",
        DragEventType::DragMove => "dragmove",
        DragEventType::DragEnd => "dragend",
    }
}

/// A derived drag event: the current pointer position, the position the
/// owning button was pressed at, and the button that owns the gesture.
#[derive(Clone, Copy, PartialEq, Eq, Structural, Debug)]
pub struct DragEvent {
    pub event_type: DragEventType,
    pub x: i64,
    pub y: i64,
    pub start_x: i64,
    pub start_y: i64,
    pub button: i32,
    pub timestamp: u64,
    pub platform: Platform,
}

/// The gesture state. Idle: nothing pressed. Pressed: a button is down at
/// `potential_drag_start` but the pointer has not yet strayed past the
/// threshold. Dragging: it has, and `drag_start_position` holds the press
/// origin the emitted events carry.
#[derive(Clone, Copy, PartialEq, Eq, Structural, Debug)]
pub struct DragState {
    pub mouse_pressed: bool,
    pub potential_drag_start: Option<Pos>,
    pub drag_button: Option<i32>,
    pub is_dragging: bool,
    pub drag_start_position: Option<Pos>,
    pub drag_threshold: u32,
}

impl DragState {
    /// The structural invariant: the origin and button exist exactly while a
    /// button is pressed, dragging only happens while pressed, and a running
    /// drag remembers the press origin it started from.
    pub open spec fn wf(self) -> bool {
        &&& self.mouse_pressed <==> self.potential_drag_start is Some
        &&& self.mouse_pressed <==> self.drag_button is Some
        &&& self.is_dragging ==> self.mouse_pressed
        &&& self.is_dragging <==> self.drag_start_position is Some
        &&& self.is_dragging ==> self.drag_start_position == self.potential_drag_start
    }
}

/// Whether the pointer at `(x, y)` lies at least `thr` pixels from the press
/// origin `(sx, sy)`, compared on squared distances so the check is exact.
pub open spec fn spec_threshold_exceeded(sx: int, sy: int, x: int, y: int, thr: int) -> bool {
    (x - sx) * (x - sx) + (y - sy) * (y - sy) >= thr * thr
}

pub fn threshold_exceeded(sx: i64, sy: i64, x: i64, y: i64, thr: u32) -> (r: bool)
    ensures
        r == spec_threshold_exceeded(sx as int, sy as int, x as int, y as int, thr as int),
{
    let dx: i128 = (x as i128) - (sx as i128);
    let dy: i128 = (y as i128) - (sy as i128);
    let t: i128 = thr as i128;
    let adx: i128 = if dx < 0 {
        -dx
    } else {
        dx
    };
    let ady: i128 = if dy < 0 {
        -dy
    } else {
        dy
    };
    proof {
        assert(adx * adx == dx * dx && ady * ady == dy * dy) by (nonlinear_arith)
            requires
                adx == dx || adx == -dx,
                ady == dy || ady == -dy,
        ;
    }
    if adx >= t || ady >= t {
        proof {
            assert(adx * adx + ady * ady >= t * t) by (nonlinear_arith)
                requires
                    adx >= 0 && ady >= 0 && t >= 0,
                    adx >= t || ady >= t,
            ;
        }
        true
    } else {
        proof {
            assert(adx * adx < 0x1_0000_0000_0000_0000 && ady * ady < 0x1_0000_0000_0000_0000
                && t * t < 0x1_0000_0000_0000_0000) by (nonlinear_arith)
                requires
                    0 <= adx < 0x1_0000_0000 && 0 <= ady < 0x1_0000_0000 && 0 <= t
                        < 0x1_0000_0000,
            ;
        }
        adx * adx + ady * ady >= t * t
    }
}

/// The button number an emitted event carries: the gesture's owner, or zero
/// when no press was seen.
pub open spec fn spec_button_or_zero(b: Option<i32>) -> i32 {
    match b {
        Some(n) => n,
        None => 0,
    }
}

/// One step of the gesture machine on a backfilled mouse record. A press
/// opens a fresh gesture (even over a running one). A move while pressed
/// emits dragstart the first time the threshold is crossed, and dragmove on
/// every later move found past it. A release ends a running drag with
/// dragend and otherwise just closes the gesture: a click emits nothing.
pub open spec fn spec_drag_step(s: DragState, ev: MouseEvent) -> (DragState, Option<DragEvent>) {
    match ev.event_type {
        MouseEventType::MouseDown => (
            DragState {
                mouse_pressed: true,
                potential_drag_start: Some(Pos { x: ev.x, y: ev.y }),
                drag_button: Some(ev.button),
                is_dragging: false,
                drag_start_position: None,
                ..s
            },
            None,
        ),
        MouseEventType::MouseMove => {
            if s.mouse_pressed && s.potential_drag_start is Some {
                let origin = s.potential_drag_start->0;
                if spec_threshold_exceeded(
                    origin.x as int,
                    origin.y as int,
                    ev.x as int,
                    ev.y as int,
                    s.drag_threshold as int,
                ) {
                    let out = DragEvent {
                        event_type: if s.is_dragging {
                            DragEventType::DragMove
                        } else {
                            DragEventType::DragStart
                        },
                        x: ev.x,
                        y: ev.y,
                        start_x: origin.x,
                        start_y: origin.y,
                        button: spec_button_or_zero(s.drag_button),
                        timestamp: ev.timestamp,
                        platform: ev.platform,
                    };
                    (
                        DragState { is_dragging: true, drag_start_position: Some(origin), ..s },
                        Some(out),
                    )
                } else {
                    (s, None)
                }
            } else {
                (s, None)
            }
        },
        MouseEventType::MouseUp => {
            if s.mouse_pressed {
                if s.is_dragging && s.drag_start_position is Some {
                    let origin = s.drag_start_position->0;
                    let out = DragEvent {
                        event_type: DragEventType::DragEnd,
                        x: ev.x,
                        y: ev.y,
                        start_x: origin.x,
                        start_y: origin.y,
                        button: spec_button_or_zero(s.drag_button),
                        timestamp: ev.timestamp,
                        platform: ev.platform,
                    };
                    (spec_reset(s), Some(out))
                } else {
                    (spec_reset(s), None)
                }
            } else {
                (s, None)
            }
        },
        MouseEventType::Wheel => (s, None),
    }
}

/// The state after a gesture closes: idle again, threshold kept.
pub open spec fn spec_reset(s: DragState) -> DragState {
    DragState {
        mouse_pressed: false,
        potential_drag_start: None,
        drag_button: None,
        is_dragging: false,
        drag_start_position: None,
        ..s
    }
}

impl DragState {
    /// An idle gesture machine with the given threshold in pixels.
    pub fn with_threshold(threshold: u32) -> (r: DragState)
        ensures
            r == (DragState {
                mouse_pressed: false,
                potential_drag_start: None,
                drag_button: None,
                is_dragging: false,
                drag_start_position: None,
                drag_threshold: threshold,
            }),
            r.wf(),
    {
        DragState {
            mouse_pressed: false,
            potential_drag_start: None,
            drag_button: None,
            is_dragging: false,
            drag_start_position: None,
            drag_threshold: threshold,
        }
    }

    /// An idle gesture machine with the default threshold of five pixels.
    pub fn new() -> (r: DragState)
        ensures
            r == (DragState {
                mouse_pressed: false,
                potential_drag_start: None,
                drag_button: None,
                is_dragging: false,
                drag_start_position: None,
                drag_threshold: 5,
            }),
            r.wf(),
    {
        DragState::with_threshold(5)
    }

    /// Returns the machine to idle, as monitor stop does.
    pub fn reset(&mut self)
        ensures
            *final(self) == spec_reset(*old(self)),
            final(self).wf(),
    {
        self.mouse_pressed = false;
        self.potential_drag_start = None;
        self.drag_button = None;
        self.is_dragging = false;
        self.drag_start_position = None;
    }

    /// Runs one backfilled mouse record through the gesture machine and
    /// yields the drag event to dispatch, if this step derives one.
    pub fn step(&mut self, ev: &MouseEvent) -> (r: Option<DragEvent>)
        ensures
            (*final(self), r) == spec_drag_step(*old(self), *ev),
    {
        match ev.event_type {
            MouseEventType::MouseDown => {
                self.mouse_pressed = true;
                self.potential_drag_start = Some(Pos { x: ev.x, y: ev.y });
                self.drag_button = Some(ev.button);
                self.is_dragging = false;
                self.drag_start_position = None;
                None
            },
            MouseEventType::MouseMove => {
                if self.mouse_pressed {
                    match self.potential_drag_start {
                        Some(origin) => {
                            if threshold_exceeded(
                                origin.x,
                                origin.y,
                                ev.x,
                                ev.y,
                                self.drag_threshold,
                            ) {
                                let was_dragging = self.is_dragging;
                                self.is_dragging = true;
                                self.drag_start_position = Some(origin);
                                Some(
                                    DragEvent {
                                        event_type: if was_dragging {
                                            DragEventType::DragMove
                                        } else {
                                            DragEventType::DragStart
                                        },
                                        x: ev.x,
                                        y: ev.y,
                                        start_x: origin.x,
                                        start_y: origin.y,
                                        button: match self.drag_button {
                                            Some(b) => b,
                                            None => 0,
                                        },
                                        timestamp: ev.timestamp,
                                        platform: ev.platform,
                                    },
                                )
                            } else {
                                None
                            }
                        },
                        None => None,
                    }
                } else {
                    None
                }
            },
            MouseEventType::MouseUp => {
                if self.mouse_pressed {
                    let out = if self.is_dragging {
                        match self.drag_start_position {
                            Some(origin) => Some(
                                DragEvent {
                                    event_type: DragEventType::DragEnd,
                                    x: ev.x,
                                    y: ev.y,
                                    start_x: origin.x,
                                    start_y: origin.y,
                                    button: match self.drag_button {
                                        Some(b) => b,
                                        None => 0,
                                    },
                                    timestamp: ev.timestamp,
                                    platform: ev.platform,
                                },
                            ),
                            None => None,
                        }
                    } else {
                        None
                    };
                    self.reset();
                    out
                } else {
                    None
                }
            },
            MouseEventType::Wheel => None,
        }
    }
}

/// Stepping preserves the structural invariant.
pub proof fn lemma_step_preserves_wf(s: DragState, ev: MouseEvent)
    requires
        s.wf(),
    ensures
        spec_drag_step(s, ev).0.wf(),
{
}

/// Every event the machine emits carries the press origin of the gesture it
/// belongs to as its start position.
pub proof fn lemma_emitted_start_is_origin(s: DragState, ev: MouseEvent)
    requires
        s.wf(),
    ensures
        match spec_drag_step(s, ev).1 {
            Some(d) => s.potential_drag_start == Some(Pos { x: d.start_x, y: d.start_y }),
            None => true,
        },
{
}

/// The run of the machine over a sequence of records, collecting every
/// emitted drag event in order.
pub open spec fn spec_drag_run(s: DragState, evs: Seq<MouseEvent>) -> (DragState, Seq<DragEvent>)
    decreases evs.len(),
{
    if evs.len() == 0 {
        (s, Seq::empty())
    } else {
        let (s1, out) = spec_drag_step(s, evs[0]);
        let (s2, rest) = spec_drag_run(s1, evs.drop_first());
        match out {
            Some(d) => (s2, seq![d] + rest),
            None => (s2, rest),
        }
    }
}

/// While a gesture stays open — only moves and wheel turns arrive — every
/// emitted event, dragstart, each dragmove and the later dragend included,
/// carries the one press origin.
pub proof fn lemma_run_start_is_origin(s: DragState, evs: Seq<MouseEvent>, origin: Pos)
    requires
        s.wf(),
        s.mouse_pressed,
        s.potential_drag_start == Some(origin),
        forall|i: int|
            0 <= i < evs.len() ==> (#[trigger] evs[i].event_type) != MouseEventType::MouseDown,
    ensures
        forall|j: int|
            0 <= j < spec_drag_run(s, evs).1.len() ==> {
                let d = #[trigger] spec_drag_run(s, evs).1[j];
                d.start_x == origin.x && d.start_y == origin.y
            },
    decreases evs.len(),
{
    if evs.len() > 0 {
        let (s1, out) = spec_drag_step(s, evs[0]);
        lemma_step_preserves_wf(s, evs[0]);
        lemma_emitted_start_is_origin(s, evs[0]);
        if s1.mouse_pressed {
            assert(s1.potential_drag_start == Some(origin));
            lemma_run_start_is_origin(s1, evs.drop_first(), origin);
        } else {
            lemma_run_stays_idle(s1, evs.drop_first());
        }
    }
}

/// A machine with no button down emits nothing as long as no press arrives.
pub proof fn lemma_run_stays_idle(s: DragState, evs: Seq<MouseEvent>)
    requires
        s.wf(),
        !s.mouse_pressed,
        forall|i: int|
            0 <= i < evs.len() ==> (#[trigger] evs[i].event_type) != MouseEventType::MouseDown,
    ensures
        spec_drag_run(s, evs).1.len() == 0,
    decreases evs.len(),
{
    if evs.len() > 0 {
        let (s1, out) = spec_drag_step(s, evs[0]);
        lemma_step_preserves_wf(s, evs[0]);
        lemma_run_stays_idle(s1, evs.drop_first());
    }
}

/// From a press onward, as long as no further press arrives, every event the
/// gesture emits — the dragstart, every dragmove and the final dragend —
/// carries the press position as its start.
pub proof fn lemma_gesture_events_carry_press_origin(
    s: DragState,
    down: MouseEvent,
    evs: Seq<MouseEvent>,
)
    requires
        s.wf(),
        down.event_type == MouseEventType::MouseDown,
        forall|i: int|
            0 <= i < evs.len() ==> (#[trigger] evs[i].event_type) != MouseEventType::MouseDown,
    ensures
        ({
            let (s1, _) = spec_drag_step(s, down);
            forall|j: int|
                0 <= j < spec_drag_run(s1, evs).1.len() ==> {
                    let d = #[trigger] spec_drag_run(s1, evs).1[j];
                    d.start_x == down.x && d.start_y == down.y
                }
        }),
{
    let (s1, _) = spec_drag_step(s, down);
    lemma_step_preserves_wf(s, down);
    lemma_run_start_is_origin(s1, evs, Pos { x: down.x, y: down.y });
}

/// A press, a move short of the threshold, and a release emit no drag event
/// at all: a click is not a drag.
pub proof fn lemma_click_emits_nothing(s: DragState, down: MouseEvent, mv: MouseEvent, up: MouseEvent)
    requires
        s.wf(),
        down.event_type == MouseEventType::MouseDown,
        mv.event_type == MouseEventType::MouseMove,
        up.event_type == MouseEventType::MouseUp,
        !spec_threshold_exceeded(
            down.x as int,
            down.y as int,
            mv.x as int,
            mv.y as int,
            s.drag_threshold as int,
        ),
    ensures
        spec_drag_run(s, seq![down, mv, up]).1.len() == 0,
{
    let evs = seq![down, mv, up];
    assert(evs.drop_first() =~= seq![mv, up]);
    assert(seq![mv, up].drop_first() =~= seq![up]);
    assert(seq![up].drop_first() =~= Seq::<MouseEvent>::empty());
    let (s1, o1) = spec_drag_step(s, down);
    let (s2, o2) = spec_drag_step(s1, mv);
    let (s3, o3) = spec_drag_step(s2, up);
    assert(o1 is None && o2 is None && o3 is None);
    assert(spec_drag_run(s3, Seq::<MouseEvent>::empty()).1 =~= Seq::<DragEvent>::empty());
    assert(spec_drag_run(s2, seq![up]).1 =~= Seq::<DragEvent>::empty());
    assert(spec_drag_run(s1, seq![mv, up]).1 =~= Seq::<DragEvent>::empty());
    assert(spec_drag_run(s, evs).1 =~= Seq::<DragEvent>::empty());
}

} // verus!
