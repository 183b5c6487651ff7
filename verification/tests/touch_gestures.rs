use sample::touch::{DevicePoint, Gesture, TouchPhase, TouchState, TouchStep};

type Pos = (f32, f32);

fn state() -> TouchState<Pos, f32> {
    TouchState::new(1.0)
}

#[test]
fn new_state_is_idle() {
    let s = state();
    assert_eq!(s.gesture(), Gesture::Idle);
    assert_eq!(s.active_touch_count(), 0);
    assert_eq!(s.current_pan(), DevicePoint { x: 0, y: 0 });
    assert_eq!(s.start_pan(), DevicePoint::zero());
    assert_eq!(s.current_zoom(), 1.0);
    assert_eq!(s.start_zoom(), 1.0);
}

#[test]
fn started_touch_becomes_active() {
    let mut s = state();
    assert!(matches!(
        s.handle_event(TouchPhase::Started, 7, (1.0, 2.0)),
        TouchStep::Done
    ));
    assert!(s.is_active(7));
    let t = s.touch(7).unwrap();
    assert_eq!((t.id, t.start, t.current), (7, (1.0, 2.0), (1.0, 2.0)));
    assert!(s.touch(8).is_none());
}

#[test]
fn move_without_gesture_asks_for_recognition() {
    let mut s = state();
    s.handle_event(TouchPhase::Started, 1, (0.0, 0.0));
    assert!(matches!(
        s.handle_event(TouchPhase::Moved, 1, (3.0, 4.0)),
        TouchStep::Recognize
    ));
    let t = s.touch(1).unwrap();
    assert_eq!((t.start, t.current), ((0.0, 0.0), (3.0, 4.0)));
    assert_eq!(s.recognize(0), Gesture::Idle);
}

#[test]
fn one_touch_beyond_threshold_pans() {
    let mut s = state();
    s.handle_event(TouchPhase::Started, 1, (0.0, 0.0));
    s.handle_event(TouchPhase::Moved, 1, (10.0, 0.0));
    assert_eq!(s.recognize(1), Gesture::Pan);
    match s.handle_event(TouchPhase::Moved, 1, (12.0, -5.0)) {
        TouchStep::Pan(t) => {
            assert_eq!(t.id, 1);
            assert_eq!(t.start, (0.0, 0.0));
            assert_eq!(t.current, (12.0, -5.0));
        }
        _ => panic!("expected a pan step"),
    }
    assert_eq!(s.pan_by(12, -5), DevicePoint { x: 12, y: -5 });
    assert_eq!(s.current_pan(), DevicePoint { x: 12, y: -5 });
    assert_eq!(s.start_pan(), DevicePoint { x: 0, y: 0 });
}

#[test]
fn two_touches_beyond_threshold_zoom() {
    let mut s = state();
    s.handle_event(TouchPhase::Started, 1, (0.0, 0.0));
    s.handle_event(TouchPhase::Started, 2, (100.0, 0.0));
    s.handle_event(TouchPhase::Moved, 1, (-10.0, 0.0));
    assert_eq!(s.recognize(1), Gesture::Idle);
    s.handle_event(TouchPhase::Moved, 2, (110.0, 0.0));
    assert_eq!(s.recognize(2), Gesture::Zoom);
    match s.handle_event(TouchPhase::Moved, 2, (150.0, 0.0)) {
        TouchStep::Zoom(moved, other, start_zoom) => {
            assert_eq!(moved.id, 2);
            assert_eq!(moved.current, (150.0, 0.0));
            assert_eq!(other.id, 1);
            assert_eq!(other.current, (-10.0, 0.0));
            assert_eq!(start_zoom, 1.0);
        }
        _ => panic!("expected a zoom step"),
    }
    assert_eq!(s.zoom_to(1.6), 1.6);
    assert_eq!(s.current_zoom(), 1.6);
}

#[test]
fn three_touches_never_recognised() {
    let mut s = state();
    for id in 0..3 {
        s.handle_event(TouchPhase::Started, id, (0.0, 0.0));
    }
    s.handle_event(TouchPhase::Moved, 0, (50.0, 0.0));
    assert_eq!(s.recognize(3), Gesture::Idle);
}

#[test]
fn ending_touch_stops_gesture() {
    let mut s = state();
    s.handle_event(TouchPhase::Started, 1, (0.0, 0.0));
    s.recognize(1);
    assert_eq!(s.gesture(), Gesture::Pan);
    assert!(matches!(
        s.handle_event(TouchPhase::Ended, 1, (0.0, 0.0)),
        TouchStep::Done
    ));
    assert_eq!(s.gesture(), Gesture::Idle);
    assert!(!s.is_active(1));
    assert_eq!(s.active_touch_count(), 0);
}

#[test]
fn cancelled_touch_is_dropped() {
    let mut s = state();
    s.handle_event(TouchPhase::Started, 1, (0.0, 0.0));
    s.handle_event(TouchPhase::Started, 2, (5.0, 5.0));
    s.handle_event(TouchPhase::Cancelled, 1, (0.0, 0.0));
    assert!(!s.is_active(1));
    assert!(s.is_active(2));
}

#[test]
fn new_touch_stops_gesture() {
    let mut s = state();
    s.handle_event(TouchPhase::Started, 1, (0.0, 0.0));
    s.recognize(1);
    s.handle_event(TouchPhase::Started, 2, (0.0, 0.0));
    assert_eq!(s.gesture(), Gesture::Idle);
    assert_eq!(s.active_touch_count(), 2);
}

#[test]
fn pan_resumes_where_it_stopped() {
    let mut s = state();
    s.handle_event(TouchPhase::Started, 1, (0.0, 0.0));
    s.recognize(1);
    s.pan_by(5, 6);
    s.handle_event(TouchPhase::Ended, 1, (5.0, 6.0));
    s.handle_event(TouchPhase::Started, 2, (0.0, 0.0));
    assert_eq!(s.recognize(1), Gesture::Pan);
    assert_eq!(s.start_pan(), DevicePoint { x: 5, y: 6 });
    assert_eq!(s.pan_by(0, 0), DevicePoint { x: 5, y: 6 });
    assert_eq!(s.pan_by(-5, 1), DevicePoint { x: 0, y: 7 });
}

#[test]
fn pan_offsets_do_not_accumulate() {
    let mut s = state();
    s.handle_event(TouchPhase::Started, 1, (0.0, 0.0));
    s.recognize(1);
    s.pan_by(3, 3);
    assert_eq!(s.pan_by(4, -2), DevicePoint { x: 4, y: -2 });
}

#[test]
fn zoom_resumes_where_it_stopped() {
    let mut s = state();
    s.handle_event(TouchPhase::Started, 1, (0.0, 0.0));
    s.handle_event(TouchPhase::Started, 2, (1.0, 0.0));
    s.recognize(2);
    s.zoom_to(2.5);
    s.handle_event(TouchPhase::Ended, 2, (1.0, 0.0));
    s.handle_event(TouchPhase::Started, 3, (1.0, 0.0));
    assert_eq!(s.recognize(2), Gesture::Zoom);
    assert_eq!(s.start_zoom(), 2.5);
}

#[test]
fn touch_down_then_up_restores_touches() {
    let mut s = state();
    s.handle_event(TouchPhase::Started, 1, (0.0, 0.0));
    let before = s.touches();
    s.handle_event(TouchPhase::Started, 9, (4.0, 4.0));
    s.handle_event(TouchPhase::Ended, 9, (4.0, 4.0));
    let after = s.touches();
    assert_eq!(before.len(), after.len());
    assert_eq!(after[0].id, 1);
    assert_eq!(s.gesture(), Gesture::Idle);
}

#[test]
fn touches_lists_each_active_touch_once() {
    let mut s = state();
    for id in [4u64, 8, 15] {
        s.handle_event(TouchPhase::Started, id, (id as f32, 0.0));
    }
    let mut ids: Vec<u64> = s.touches().iter().map(|t| t.id).collect();
    ids.sort();
    assert_eq!(ids, vec![4, 8, 15]);
    for t in s.touches() {
        assert_eq!(t.start, (t.id as f32, 0.0));
    }
}

#[test]
fn restarting_active_touch_starts_over() {
    let mut s = state();
    s.handle_event(TouchPhase::Started, 3, (0.0, 0.0));
    s.handle_event(TouchPhase::Moved, 3, (9.0, 9.0));
    s.recognize(1);
    s.handle_event(TouchPhase::Started, 3, (20.0, 20.0));
    assert_eq!(s.active_touch_count(), 1);
    let t = s.touch(3).unwrap();
    assert_eq!((t.start, t.current), ((20.0, 20.0), (20.0, 20.0)));
    assert_eq!(s.gesture(), Gesture::Idle);
}
