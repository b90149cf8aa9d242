use p2pg::input::PlayerInput;
use p2pg::touch::{TouchEvent, TouchMovement, TouchPhase};

fn ev(phase: TouchPhase, id: u64, x: i64, y: i64) -> TouchEvent {
    TouchEvent { phase, id, x, y }
}

/// A pending tap-fire makes drain report fire, and the only movement it
/// may report alongside comes from a finger that is still down and past
/// the tap threshold — never from the finger that lifted.
#[test]
fn tap_fire_with_live_joystick() {
    let mut touch = TouchMovement::new();
    // Finger 1 drags far enough to claim the joystick and keeps holding.
    touch.apply_event(ev(TouchPhase::Started, 1, 100, 100));
    touch.apply_event(ev(TouchPhase::Moved, 1, 200, 100));
    // Finger 2 taps: down and straight up.
    touch.apply_event(ev(TouchPhase::Started, 2, 300, 300));
    touch.apply_event(ev(TouchPhase::Ended, 2, 300, 300));

    let drained = touch.drain((0, 0), 5).expect("gestures were buffered");
    assert!(drained.fire());
    assert!(drained.moving());
    // The joystick direction comes from finger 1's drag: straight right.
    assert_eq!(drained.dir, 64);
    // The aim points from the player toward the tap: up-right on screen
    // maps to the down-right world octant boundary.
    assert_eq!(drained.angle, 96);
}

/// Releasing the joystick finger frees the role: a later drain reports
/// no movement from it.
#[test]
fn lifted_joystick_is_never_reported() {
    let mut touch = TouchMovement::new();
    touch.apply_event(ev(TouchPhase::Started, 1, 100, 100));
    touch.apply_event(ev(TouchPhase::Moved, 1, 200, 100));
    touch.apply_event(ev(TouchPhase::Ended, 1, 200, 100));
    // Finger 2 taps afterwards.
    touch.apply_event(ev(TouchPhase::Started, 2, 50, 50));
    touch.apply_event(ev(TouchPhase::Ended, 2, 50, 50));

    let drained = touch.drain((0, 0), 5).expect("the tap is pending");
    assert!(drained.fire());
    assert!(!drained.moving());
    assert_eq!(drained.dir, 0);
}

/// Dragging within the tap threshold still counts as a tap; crossing it
/// ends the tap state for good.
#[test]
fn tap_threshold_is_ten_pixels() {
    let mut touch = TouchMovement::new();
    // Nine pixels of drag: still a tap.
    touch.apply_event(ev(TouchPhase::Started, 1, 0, 0));
    touch.apply_event(ev(TouchPhase::Moved, 1, 9, 0));
    touch.apply_event(ev(TouchPhase::Ended, 1, 9, 0));
    let drained = touch.drain((0, 0), 0).expect("a tap fired");
    assert!(drained.fire());

    // Ten pixels of drag: the tap is gone, the joystick claimed.
    touch.apply_event(ev(TouchPhase::Started, 2, 0, 0));
    touch.apply_event(ev(TouchPhase::Moved, 2, 10, 0));
    let drained = touch.drain((0, 0), 0).expect("the joystick moved");
    assert!(!drained.fire());
    assert!(drained.moving());
}

/// A finger that crossed the threshold and wandered back to its start
/// never becomes a tap again.
#[test]
fn tap_state_is_irreversible() {
    let mut touch = TouchMovement::new();
    touch.apply_event(ev(TouchPhase::Started, 1, 0, 0));
    touch.apply_event(ev(TouchPhase::Moved, 1, 40, 0));
    touch.apply_event(ev(TouchPhase::Moved, 1, 0, 0));
    touch.apply_event(ev(TouchPhase::Ended, 1, 0, 0));
    assert_eq!(touch.drain((0, 0), 0), None);
}

/// With nothing buffered, drain yields nothing, so the desktop path
/// remains usable as a fallback; and a pending tap is consumed exactly
/// once.
#[test]
fn drain_flushes_exactly_once() {
    let mut touch = TouchMovement::new();
    assert_eq!(touch.drain((0, 0), 9), None);

    touch.apply_event(ev(TouchPhase::Started, 7, 20, 20));
    touch.apply_event(ev(TouchPhase::Ended, 7, 20, 20));
    let first = touch.drain((0, 0), 9).expect("the tap is pending");
    assert!(first.fire());
    assert_eq!(touch.drain((0, 0), 9), None);
}

/// The default aim angle is kept when only movement is reported.
#[test]
fn joystick_keeps_the_default_aim() {
    let mut touch = TouchMovement::new();
    touch.apply_event(ev(TouchPhase::Started, 1, 0, 0));
    touch.apply_event(ev(TouchPhase::Moved, 1, 0, 50));
    let drained = touch.drain((0, 0), 77).expect("the joystick moved");
    assert!(!drained.fire());
    assert!(drained.moving());
    assert_eq!(drained.angle, 77);
    // Screen y points down, world y up: dragging down-screen moves down.
    assert_eq!(drained.dir, 128);
}

/// A cancel removes the finger like an end and still honors the tap.
#[test]
fn cancel_matches_end() {
    let mut touch = TouchMovement::new();
    touch.apply_event(ev(TouchPhase::Started, 3, 10, 10));
    touch.apply_event(ev(TouchPhase::Canceled, 3, 10, 10));
    let drained = touch.drain((0, 0), 0).expect("the tap is pending");
    assert!(drained.fire());
}

/// A second finger that crosses the threshold while the joystick is
/// held does not steal the role.
#[test]
fn joystick_role_is_exclusive() {
    let mut touch = TouchMovement::new();
    touch.apply_event(ev(TouchPhase::Started, 1, 0, 0));
    touch.apply_event(ev(TouchPhase::Moved, 1, 50, 0));
    touch.apply_event(ev(TouchPhase::Started, 2, 0, 0));
    touch.apply_event(ev(TouchPhase::Moved, 2, 0, 50));
    let drained = touch.drain((0, 0), 0).expect("the joystick moved");
    // Still finger 1's direction: right, not down.
    assert_eq!(drained.dir, 64);

    // Releasing finger 1 frees the role for finger 2's next move.
    touch.apply_event(ev(TouchPhase::Ended, 1, 50, 0));
    touch.apply_event(ev(TouchPhase::Moved, 2, 0, 60));
    let drained = touch.drain((0, 0), 0).expect("the joystick moved");
    assert_eq!(drained.dir, 128);
}

/// Drained records are canonical three-byte records.
#[test]
fn drained_record_is_canonical() {
    let mut touch = TouchMovement::new();
    touch.apply_event(ev(TouchPhase::Started, 1, 0, 0));
    touch.apply_event(ev(TouchPhase::Moved, 1, 30, -30));
    let drained = touch.drain((0, 0), 0).expect("the joystick moved");
    let bytes = drained.to_bytes();
    assert_eq!(PlayerInput::from_bytes(&bytes), Ok(drained));
}
