//! Multi-touch gesture recognition: which fingers are down, where each
//! started and where it is now, and whether they pan or zoom.
//!
//! Positions and zoom factors are the caller's own types (`P`, `Z`): the
//! state machine keeps them and decides with them, and the caller does the
//! geometry that the steps ask of it.

use std::collections::HashMap;
use vstd::prelude::*;
use vstd::std_specs::hash::spec_hash_map_iter;
use vstd::std_specs::iter::IteratorSpec;

verus! {

broadcast use vstd::std_specs::hash::group_hash_axioms;

/// The stage of a touch that an event reports.
#[derive(Clone, Copy, Debug, PartialEq, Eq, Structural)]
pub enum TouchPhase {
    Started,
    Moved,
    Ended,
    Cancelled,
}

/// The gesture that the active touches make.
#[derive(Clone, Copy, Debug, PartialEq, Eq, Structural)]
pub enum Gesture {
    Idle,
    Pan,
    Zoom,
}

/// A point in device pixels.
#[derive(Clone, Copy, Debug, PartialEq, Eq, Structural)]
pub struct DevicePoint {
    pub x: i32,
    pub y: i32,
}

impl DevicePoint {
    /// The origin.
    pub fn zero() -> (p: DevicePoint)
        ensures
            p == (DevicePoint { x: 0, y: 0 }),
    {
        DevicePoint { x: 0, y: 0 }
    }
}

/// One finger on the screen: where it went down and where it is now.
#[derive(Clone, Copy, Debug)]
pub struct Touch<P> {
    pub id: u64,
    pub start: P,
    pub current: P,
}

/// What is left to do after an event, which needs the positions' geometry.
#[derive(Clone, Copy, Debug)]
pub enum TouchStep<P, Z> {
    /// Nothing: the event gives no gesture output.
    Done,
    /// No gesture is under way: report with `recognize` how many active
    /// touches are now farther from their start than the threshold.
    Recognize,
    /// A pan is under way with this touch: report with `pan_by` its offset
    /// from its start, rounded to device pixels.
    Pan(Touch<P>),
    /// A zoom is under way with these two touches (the moved one first):
    /// report with `zoom_to` the zoom at the start of the gesture, given
    /// here, scaled by the ratio of their current to their initial distance.
    Zoom(Touch<P>, Touch<P>, Z),
}

/// The gesture recogniser as a mathematical value.
pub struct TouchStateView<P, Z> {
    /// Active touches by id.
    pub touches: Map<u64, Touch<P>>,
    pub gesture: Gesture,
    /// Zoom when the current zoom gesture was recognised.
    pub start_zoom: Z,
    /// Zoom last reported.
    pub current_zoom: Z,
    /// Pan when the current pan gesture was recognised.
    pub start_pan: DevicePoint,
    /// Pan last reported.
    pub current_pan: DevicePoint,
}

impl<P, Z> TouchStateView<P, Z> {
    /// Each touch is stored under its own id, a pan is made by exactly one
    /// touch and a zoom by exactly two.
    pub open spec fn wf(self) -> bool {
        &&& self.touches.dom().finite()
        &&& forall|id: u64| #[trigger] self.touches.contains_key(id) ==> self.touches[id].id == id
        &&& self.gesture == Gesture::Pan ==> self.touches.len() == 1
        &&& self.gesture == Gesture::Zoom ==> self.touches.len() == 2
    }

    /// Events that can happen: a touch can start with any id (a touch
    /// already active under it starts over), and only an active touch can
    /// move, end or be cancelled.
    pub open spec fn accepts(self, phase: TouchPhase, id: u64) -> bool {
        match phase {
            TouchPhase::Started => true,
            _ => self.touches.contains_key(id),
        }
    }

    /// The state after an event: a new touch starts and ends where it went
    /// down; a moved touch keeps its start; a touch that starts, ends or is
    /// cancelled stops any gesture.
    pub open spec fn after_event(self, phase: TouchPhase, id: u64, location: P) -> Self {
        match phase {
            TouchPhase::Started => TouchStateView {
                touches: self.touches.insert(id, Touch { id, start: location, current: location }),
                gesture: Gesture::Idle,
                ..self
            },
            TouchPhase::Moved => TouchStateView {
                touches: self.touches.insert(id, Touch { current: location, ..self.touches[id] }),
                ..self
            },
            _ => TouchStateView { touches: self.touches.remove(id), gesture: Gesture::Idle, ..self },
        }
    }

    /// The active touch whose id is not `id`, where there is one.
    pub open spec fn other_touch(self, id: u64) -> Touch<P> {
        self.touches[choose|k: u64| self.touches.contains_key(k) && k != id]
    }

    /// What is left to do after an event: only a move does anything more,
    /// according to the gesture under way.
    pub open spec fn event_step(self, phase: TouchPhase, id: u64, location: P) -> TouchStep<P, Z> {
        let next = self.after_event(phase, id, location);
        match phase {
            TouchPhase::Moved => match self.gesture {
                Gesture::Idle => TouchStep::Recognize,
                Gesture::Pan => TouchStep::Pan(next.touches[id]),
                Gesture::Zoom => TouchStep::Zoom(
                    next.touches[id],
                    next.other_touch(id),
                    self.start_zoom,
                ),
            },
            _ => TouchStep::Done,
        }
    }

    /// The state after `beyond` of the active touches were found beyond the
    /// threshold: when all of them are, one touch starts a pan from the
    /// current pan and two start a zoom from the current zoom.
    pub open spec fn after_recognize(self, beyond: nat) -> Self {
        if self.touches.len() == beyond && beyond == 1 {
            TouchStateView { gesture: Gesture::Pan, start_pan: self.current_pan, ..self }
        } else if self.touches.len() == beyond && beyond == 2 {
            TouchStateView { gesture: Gesture::Zoom, start_zoom: self.current_zoom, ..self }
        } else {
            self
        }
    }

    /// An offset from the start of the pan stays within device coordinates.
    pub open spec fn pan_fits(self, dx: i32, dy: i32) -> bool {
        &&& i32::MIN <= self.start_pan.x + dx <= i32::MAX
        &&& i32::MIN <= self.start_pan.y + dy <= i32::MAX
    }

    /// The state after the pan moved by `(dx, dy)` from where it started.
    pub open spec fn after_pan(self, dx: i32, dy: i32) -> Self {
        TouchStateView {
            current_pan: DevicePoint {
                x: (self.start_pan.x + dx) as i32,
                y: (self.start_pan.y + dy) as i32,
            },
            ..self
        }
    }

    /// The state after the zoom became `zoom`.
    pub open spec fn after_zoom(self, zoom: Z) -> Self {
        TouchStateView { current_zoom: zoom, ..self }
    }
}

/// Recognises pan and zoom gestures from touch events.
pub struct TouchState<P, Z> {
    active_touches: HashMap<u64, Touch<P>>,
    current_gesture: Gesture,
    start_zoom: Z,
    current_zoom: Z,
    start_pan: DevicePoint,
    current_pan: DevicePoint,
}

impl<P, Z> View for TouchState<P, Z> {
    type V = TouchStateView<P, Z>;

    closed spec fn view(&self) -> TouchStateView<P, Z> {
        TouchStateView {
            touches: self.active_touches@,
            gesture: self.current_gesture,
            start_zoom: self.start_zoom,
            current_zoom: self.current_zoom,
            start_pan: self.start_pan,
            current_pan: self.current_pan,
        }
    }
}

impl<P: Copy, Z: Copy> TouchState<P, Z> {
    /// No touch and no gesture; the pan at the origin and both zooms at
    /// `initial_zoom`.
    pub fn new(initial_zoom: Z) -> (s: Self)
        ensures
            s@ == (TouchStateView::<P, Z> {
                touches: Map::empty(),
                gesture: Gesture::Idle,
                start_zoom: initial_zoom,
                current_zoom: initial_zoom,
                start_pan: DevicePoint { x: 0, y: 0 },
                current_pan: DevicePoint { x: 0, y: 0 },
            }),
            s@.wf(),
    {
        TouchState {
            active_touches: HashMap::new(),
            current_gesture: Gesture::Idle,
            start_zoom: initial_zoom,
            current_zoom: initial_zoom,
            start_pan: DevicePoint::zero(),
            current_pan: DevicePoint::zero(),
        }
    }

    /// The active touches, each once, in no particular order.
    pub fn touches(&self) -> (v: Vec<Touch<P>>)
        requires
            self@.wf(),
        ensures
            v@.len() == self@.touches.len(),
            forall|i: int|
                0 <= i < v@.len() ==> self@.touches.contains_key(#[trigger] v@[i].id)
                    && self@.touches[v@[i].id] == v@[i],
            forall|i: int, j: int| 0 <= i < j < v@.len() ==> v@[i].id != v@[j].id,
            forall|id: u64|
                #[trigger] self@.touches.contains_key(id) ==> exists|i: int|
                    0 <= i < v@.len() && v@[i].id == id,
    {
        let ghost pairs = spec_hash_map_iter(&self.active_touches).remaining();
        let mut v: Vec<Touch<P>> = Vec::new();
        for entry in it: self.active_touches.iter()
            invariant
                it.seq() == pairs,
                pairs == spec_hash_map_iter(&self.active_touches).remaining(),
                v@.len() == it.index(),
                forall|i: int| 0 <= i < it.index() ==> v@[i] == *pairs[i].1,
        {
            v.push(*entry.1);
        }
        proof {
            let m = self.active_touches@;
            assert(v@.len() == pairs.len());
            assert forall|i: int| 0 <= i < v@.len() implies m.contains_key(#[trigger] v@[i].id)
                && m[v@[i].id] == v@[i] by {
                assert(m.contains_key(*pairs[i].0));
                assert(m[*pairs[i].0] == *pairs[i].1);
            }
            assert forall|i: int, j: int| 0 <= i < j < v@.len() implies v@[i].id != v@[j].id by {
                assert(m.contains_key(*pairs[i].0));
                assert(m[*pairs[i].0] == *pairs[i].1);
                assert(m.contains_key(*pairs[j].0));
                assert(m[*pairs[j].0] == *pairs[j].1);
                if v@[i].id == v@[j].id {
                    assert(pairs[i] == pairs[j]);
                }
            }
            assert forall|id: u64| #[trigger] m.contains_key(id) implies exists|i: int|
                0 <= i < v@.len() && v@[i].id == id by {
                assert(pairs.contains((&id, &m[id])));
                let i = choose|i: int| 0 <= i < pairs.len() && pairs[i] == (&id, &m[id]);
                assert(v@[i].id == id);
            }
        }
        v
    }

    /// Applies a touch event: a started touch becomes active, a moved one
    /// records its new position, an ended or cancelled one is dropped; a
    /// start, end or cancel stops any gesture. The step returned says what
    /// geometry a move still needs.
    pub fn handle_event(&mut self, phase: TouchPhase, id: u64, location: P) -> (step: TouchStep<P, Z>)
        requires
            old(self)@.wf(),
            old(self)@.accepts(phase, id),
        ensures
            final(self)@ == old(self)@.after_event(phase, id, location),
            final(self)@.wf(),
            step == old(self)@.event_step(phase, id, location),
    {
        match phase {
            TouchPhase::Started => {
                self.active_touches.insert(id, Touch { id, start: location, current: location });
                self.current_gesture = Gesture::Idle;
                TouchStep::Done
            },
            TouchPhase::Moved => {
                let before = *self.active_touches.get(&id).unwrap();
                let moved = Touch { current: location, ..before };
                self.active_touches.insert(id, moved);
                proof {
                    assert(self@.touches.dom() =~= old(self)@.touches.dom());
                }
                match self.current_gesture {
                    Gesture::Idle => TouchStep::Recognize,
                    Gesture::Pan => TouchStep::Pan(moved),
                    Gesture::Zoom => {
                        let all = self.touches();
                        let other = if all[0].id == id {
                            all[1]
                        } else {
                            all[0]
                        };
                        proof {
                            let m = self@.touches;
                            assert(m.contains_key(other.id) && other.id != id);
                            assert forall|k: u64| m.contains_key(k) && k != id implies k == other.id by {
                                let i = choose|i: int| 0 <= i < all@.len() && all@[i].id == k;
                                assert(i == 0 || i == 1);
                            }
                            let chosen = choose|k: u64| m.contains_key(k) && k != id;
                            assert(chosen == other.id);
                        }
                        TouchStep::Zoom(moved, other, self.start_zoom)
                    },
                }
            },
            _ => {
                self.active_touches.remove(&id);
                self.current_gesture = Gesture::Idle;
                TouchStep::Done
            },
        }
    }

    /// Recognises a gesture once a move found `beyond_threshold` of the
    /// active touches farther from their start than the threshold: when all
    /// of them are, one touch starts a pan and two start a zoom.
    pub fn recognize(&mut self, beyond_threshold: usize) -> (gesture: Gesture)
        requires
            old(self)@.wf(),
            old(self)@.gesture == Gesture::Idle,
        ensures
            final(self)@ == old(self)@.after_recognize(beyond_threshold as nat),
            final(self)@.wf(),
            gesture == final(self)@.gesture,
    {
        let active = self.active_touches.len();
        if active == beyond_threshold {
            if active == 1 {
                self.start_pan = self.current_pan;
                self.current_gesture = Gesture::Pan;
            } else if active == 2 {
                self.start_zoom = self.current_zoom;
                self.current_gesture = Gesture::Zoom;
            }
        }
        self.current_gesture
    }

    /// Moves the pan to `(dx, dy)` from where the pan gesture started, and
    /// gives the new pan.
    pub fn pan_by(&mut self, dx: i32, dy: i32) -> (pan: DevicePoint)
        requires
            old(self)@.wf(),
            old(self)@.pan_fits(dx, dy),
        ensures
            final(self)@ == old(self)@.after_pan(dx, dy),
            final(self)@.wf(),
            pan == final(self)@.current_pan,
    {
        self.current_pan = DevicePoint { x: self.start_pan.x + dx, y: self.start_pan.y + dy };
        self.current_pan
    }

    /// Records `zoom` as the current zoom, and gives it back.
    pub fn zoom_to(&mut self, zoom: Z) -> (current: Z)
        requires
            old(self)@.wf(),
        ensures
            final(self)@ == old(self)@.after_zoom(zoom),
            final(self)@.wf(),
            current == zoom,
    {
        self.current_zoom = zoom;
        self.current_zoom
    }

    /// The gesture under way.
    pub fn gesture(&self) -> (g: Gesture)
        ensures
            g == self@.gesture,
    {
        self.current_gesture
    }

    /// Whether a touch with this id is active.
    pub fn is_active(&self, id: u64) -> (active: bool)
        ensures
            active == self@.touches.contains_key(id),
    {
        self.active_touches.contains_key(&id)
    }

    /// The number of active touches.
    pub fn active_touch_count(&self) -> (n: usize)
        ensures
            n == self@.touches.len(),
    {
        self.active_touches.len()
    }

    /// The active touch with this id, if any.
    pub fn touch(&self, id: u64) -> (t: Option<Touch<P>>)
        ensures
            t == (if self@.touches.contains_key(id) {
                Some(self@.touches[id])
            } else {
                None
            }),
    {
        match self.active_touches.get(&id) {
            Some(t) => Some(*t),
            None => None,
        }
    }

    /// The pan when the pan gesture started.
    pub fn start_pan(&self) -> (p: DevicePoint)
        ensures
            p == self@.start_pan,
    {
        self.start_pan
    }

    /// The pan last reported.
    pub fn current_pan(&self) -> (p: DevicePoint)
        ensures
            p == self@.current_pan,
    {
        self.current_pan
    }

    /// The zoom when the zoom gesture started.
    pub fn start_zoom(&self) -> (z: Z)
        ensures
            z == self@.start_zoom,
    {
        self.start_zoom
    }

    /// The zoom last reported.
    pub fn current_zoom(&self) -> (z: Z)
        ensures
            z == self@.current_zoom,
    {
        self.current_zoom
    }
}

/// Every event that can happen keeps the recogniser well formed.
pub proof fn law_event_keeps_invariant<P, Z>(
    s: TouchStateView<P, Z>,
    phase: TouchPhase,
    id: u64,
    location: P,
)
    requires
        s.wf(),
        s.accepts(phase, id),
    ensures
        s.after_event(phase, id, location).wf(),
{
    let next = s.after_event(phase, id, location);
    if phase == TouchPhase::Moved {
        assert(next.touches.dom() =~= s.touches.dom());
    }
}

/// Recognition, panning and zooming keep the recogniser well formed.
pub proof fn law_gesture_updates_keep_invariant<P, Z>(
    s: TouchStateView<P, Z>,
    beyond: nat,
    dx: i32,
    dy: i32,
    zoom: Z,
)
    requires
        s.wf(),
    ensures
        s.gesture == Gesture::Idle ==> s.after_recognize(beyond).wf(),
        s.after_pan(dx, dy).wf(),
        s.after_zoom(zoom).wf(),
{
}

/// A touch that starts and then ends or is cancelled leaves the active
/// touches as they were, with no gesture under way, and pan and zoom
/// untouched.
pub proof fn law_touch_down_then_up_restores<P, Z>(
    s: TouchStateView<P, Z>,
    id: u64,
    down: P,
    up: P,
    end: TouchPhase,
)
    requires
        s.wf(),
        !s.touches.contains_key(id),
        end == TouchPhase::Ended || end == TouchPhase::Cancelled,
    ensures
        ({
            let after = s.after_event(TouchPhase::Started, id, down).after_event(end, id, up);
            &&& after.touches == s.touches
            &&& after.gesture == Gesture::Idle
            &&& after.start_pan == s.start_pan
            &&& after.current_pan == s.current_pan
            &&& after.start_zoom == s.start_zoom
            &&& after.current_zoom == s.current_zoom
        }),
{
    let after = s.after_event(TouchPhase::Started, id, down).after_event(end, id, up);
    assert(after.touches =~= s.touches);
}

/// A move changes only the current position of the moved touch: the set of
/// active touches, every start, the other touches and the gesture stay.
pub proof fn law_move_changes_only_that_touch<P, Z>(
    s: TouchStateView<P, Z>,
    id: u64,
    location: P,
    other: u64,
)
    requires
        s.wf(),
        s.accepts(TouchPhase::Moved, id),
    ensures
        ({
            let after = s.after_event(TouchPhase::Moved, id, location);
            &&& after.touches.dom() == s.touches.dom()
            &&& after.touches[id].start == s.touches[id].start
            &&& after.touches[id].current == location
            &&& after.gesture == s.gesture
            &&& (other != id && s.touches.contains_key(other)) ==> after.touches[other]
                == s.touches[other]
        }),
{
    let after = s.after_event(TouchPhase::Moved, id, location);
    assert(after.touches.dom() =~= s.touches.dom());
}

/// A touch that starts, ends or is cancelled stops any gesture, and a move
/// never starts or stops one.
pub proof fn law_only_moves_keep_gesture<P, Z>(
    s: TouchStateView<P, Z>,
    phase: TouchPhase,
    id: u64,
    location: P,
)
    ensures
        phase != TouchPhase::Moved ==> s.after_event(phase, id, location).gesture == Gesture::Idle,
        phase == TouchPhase::Moved ==> s.after_event(phase, id, location).gesture == s.gesture,
        phase != TouchPhase::Moved ==> s.event_step(phase, id, location) == TouchStep::<P, Z>::Done,
{
}

/// A gesture is recognised only when every active touch is beyond the
/// threshold: a pan for one touch, a zoom for two, none otherwise.
pub proof fn law_recognition<P, Z>(s: TouchStateView<P, Z>, beyond: nat)
    requires
        s.wf(),
        s.gesture == Gesture::Idle,
    ensures
        s.after_recognize(beyond).gesture == Gesture::Pan <==> (s.touches.len() == 1 && beyond == 1),
        s.after_recognize(beyond).gesture == Gesture::Zoom <==> (s.touches.len() == 2 && beyond == 2),
        s.after_recognize(beyond).touches == s.touches,
        s.after_recognize(beyond).current_pan == s.current_pan,
        s.after_recognize(beyond).current_zoom == s.current_zoom,
{
}

/// A pan resumes where the last one stopped: once recognised it starts at
/// the current pan, so a zero offset reports the pan unchanged.
pub proof fn law_pan_resumes<P, Z>(s: TouchStateView<P, Z>)
    requires
        s.wf(),
        s.gesture == Gesture::Idle,
        s.touches.len() == 1,
    ensures
        s.after_recognize(1).gesture == Gesture::Pan,
        s.after_recognize(1).start_pan == s.current_pan,
        s.after_recognize(1).pan_fits(0, 0),
        s.after_recognize(1).after_pan(0, 0).current_pan == s.current_pan,
{
}

/// A zoom resumes where the last one stopped: once recognised it starts at
/// the current zoom.
pub proof fn law_zoom_resumes<P, Z>(s: TouchStateView<P, Z>)
    requires
        s.wf(),
        s.gesture == Gesture::Idle,
        s.touches.len() == 2,
    ensures
        s.after_recognize(2).gesture == Gesture::Zoom,
        s.after_recognize(2).start_zoom == s.current_zoom,
{
}

/// Pan offsets are measured from where the gesture started, not added up:
/// the last offset alone decides the pan, and the start does not move.
pub proof fn law_pan_offsets_do_not_accumulate<P, Z>(
    s: TouchStateView<P, Z>,
    dx1: i32,
    dy1: i32,
    dx2: i32,
    dy2: i32,
)
    requires
        s.pan_fits(dx1, dy1),
        s.pan_fits(dx2, dy2),
    ensures
        s.after_pan(dx1, dy1).pan_fits(dx2, dy2),
        s.after_pan(dx1, dy1).after_pan(dx2, dy2) == s.after_pan(dx2, dy2),
        s.after_pan(dx2, dy2).start_pan == s.start_pan,
        s.after_pan(dx2, dy2).current_pan == (DevicePoint {
            x: (s.start_pan.x + dx2) as i32,
            y: (s.start_pan.y + dy2) as i32,
        }),
{
}

/// With no gesture under way, every move of an active touch asks for
/// recognition, whatever the number of active touches.
pub proof fn law_idle_move_asks_for_recognition<P, Z>(
    s: TouchStateView<P, Z>,
    id: u64,
    location: P,
)
    requires
        s.wf(),
        s.gesture == Gesture::Idle,
        s.accepts(TouchPhase::Moved, id),
    ensures
        s.event_step(TouchPhase::Moved, id, location) == TouchStep::<P, Z>::Recognize,
{
}

/// Panning changes only the current pan: the gesture, the touches, the
/// start of the pan and both zooms stay as they were.
pub proof fn law_pan_changes_only_current_pan<P, Z>(s: TouchStateView<P, Z>, dx: i32, dy: i32)
    ensures
        s.after_pan(dx, dy).gesture == s.gesture,
        s.after_pan(dx, dy).touches == s.touches,
        s.after_pan(dx, dy).start_pan == s.start_pan,
        s.after_pan(dx, dy).start_zoom == s.start_zoom,
        s.after_pan(dx, dy).current_zoom == s.current_zoom,
{
}

/// Recording a zoom changes only the current zoom: the gesture, the
/// touches, the pans and the zoom the gesture started at stay.
pub proof fn law_zoom_changes_only_current_zoom<P, Z>(s: TouchStateView<P, Z>, zoom: Z)
    ensures
        s.after_zoom(zoom).current_zoom == zoom,
        s.after_zoom(zoom).start_zoom == s.start_zoom,
        s.after_zoom(zoom).gesture == s.gesture,
        s.after_zoom(zoom).touches == s.touches,
        s.after_zoom(zoom).start_pan == s.start_pan,
        s.after_zoom(zoom).current_pan == s.current_pan,
{
}

/// A pan under way stays a pan: after a move and the pan it reports, the
/// next move of the touch is again a pan step, measured from the same
/// start of the pan.
pub proof fn law_pan_continues_over_moves<P, Z>(
    s: TouchStateView<P, Z>,
    id: u64,
    first: P,
    dx: i32,
    dy: i32,
    second: P,
)
    requires
        s.wf(),
        s.gesture == Gesture::Pan,
        s.accepts(TouchPhase::Moved, id),
        s.pan_fits(dx, dy),
    ensures
        ({
            let s1 = s.after_event(TouchPhase::Moved, id, first).after_pan(dx, dy);
            &&& s1.wf()
            &&& s1.gesture == Gesture::Pan
            &&& s1.start_pan == s.start_pan
            &&& s1.accepts(TouchPhase::Moved, id)
            &&& s1.event_step(TouchPhase::Moved, id, second) matches TouchStep::Pan(t)
                && t.id == id && t.start == s.touches[id].start && t.current == second
        }),
{
    let s1 = s.after_event(TouchPhase::Moved, id, first);
    law_event_keeps_invariant(s, TouchPhase::Moved, id, first);
    assert(s1.touches.dom() =~= s.touches.dom());
}

/// Every move of one pinch scales from the zoom recorded when the zoom was
/// recognised: each move's zoom step carries the state's start zoom, and
/// neither a move nor a recorded zoom changes it.
pub proof fn law_pinch_scales_from_start_zoom<P, Z>(
    s: TouchStateView<P, Z>,
    id: u64,
    first: P,
    zoom: Z,
    next_id: u64,
    second: P,
)
    requires
        s.wf(),
        s.gesture == Gesture::Zoom,
        s.accepts(TouchPhase::Moved, id),
        s.accepts(TouchPhase::Moved, next_id),
    ensures
        s.event_step(TouchPhase::Moved, id, first) matches TouchStep::Zoom(_, _, z) && z
            == s.start_zoom,
        ({
            let s1 = s.after_event(TouchPhase::Moved, id, first).after_zoom(zoom);
            &&& s1.wf()
            &&& s1.gesture == Gesture::Zoom
            &&& s1.start_zoom == s.start_zoom
            &&& s1.current_zoom == zoom
            &&& s1.accepts(TouchPhase::Moved, next_id)
            &&& s1.event_step(TouchPhase::Moved, next_id, second) matches TouchStep::Zoom(_, _, z)
                && z == s.start_zoom
        }),
{
    let s1 = s.after_event(TouchPhase::Moved, id, first);
    law_event_keeps_invariant(s, TouchPhase::Moved, id, first);
    assert(s1.touches.dom() =~= s.touches.dom());
}

/// How each event changes the table of active touches: a started touch is
/// added where it went down (replacing one under the same id), an ended or
/// cancelled one is removed, a moved one keeps its id and start; no other
/// touch changes.
pub proof fn law_event_touch_table<P, Z>(
    s: TouchStateView<P, Z>,
    phase: TouchPhase,
    id: u64,
    location: P,
    other: u64,
)
    requires
        s.wf(),
        s.accepts(phase, id),
    ensures
        ({
            let after = s.after_event(phase, id, location).touches;
            &&& phase == TouchPhase::Started ==> after.contains_key(id) && after[id].id == id
                && after[id].start == location && after[id].current == location
            &&& phase == TouchPhase::Started ==> after.len() == s.touches.len() + (if s.touches.contains_key(id) { 0int } else { 1int })
            &&& phase == TouchPhase::Moved ==> after.contains_key(id) && after[id].id == id
                && after[id].start == s.touches[id].start && after[id].current == location
                && after.len() == s.touches.len()
            &&& (phase == TouchPhase::Ended || phase == TouchPhase::Cancelled) ==> !after.contains_key(id)
                && after.len() + 1 == s.touches.len()
            &&& other != id ==> (after.contains_key(other) == s.touches.contains_key(other))
            &&& (other != id && s.touches.contains_key(other)) ==> after[other] == s.touches[other]
        }),
{
    let after = s.after_event(phase, id, location).touches;
    if phase == TouchPhase::Moved {
        assert(after.dom() =~= s.touches.dom());
    }
}

/// What a move asks of the caller while a gesture is under way: a pan asks
/// for the moved touch, with its start and its new position; a zoom asks
/// for the moved touch and the other active touch as they now stand.
pub proof fn law_move_step_contents<P, Z>(s: TouchStateView<P, Z>, id: u64, location: P)
    requires
        s.wf(),
        s.accepts(TouchPhase::Moved, id),
    ensures
        s.gesture == Gesture::Pan ==> (s.event_step(TouchPhase::Moved, id, location) matches TouchStep::Pan(t)
            && t.id == id && t.start == s.touches[id].start && t.current == location),
        s.gesture == Gesture::Zoom ==> (s.event_step(TouchPhase::Moved, id, location) matches TouchStep::Zoom(
            a,
            b,
            _,
        ) && a.id == id && a.start == s.touches[id].start && a.current == location && b.id != id
            && s.touches.contains_key(b.id) && b == s.touches[b.id]),
{
    let next = s.after_event(TouchPhase::Moved, id, location);
    assert(next.touches.dom() =~= s.touches.dom());
    if s.gesture == Gesture::Zoom {
        assert(s.touches.len() == 2);
        assert(s.touches.dom().len() == 2);
        if forall|k: u64| s.touches.contains_key(k) ==> k == id {
            assert(s.touches.dom() =~= set![id]);
        }
        let k = choose|k: u64| next.touches.contains_key(k) && k != id;
        assert(next.touches.contains_key(k) && k != id);
    }
}

} // verus!
