use p2pg::component::{facing_from_angle, Facing};
use p2pg::error::GameError;
use p2pg::input::{desktop_input, input, KeyState, PlayerInput, WindowFocus, FIRE, MOVE};
use p2pg::touch::TouchMovement;

fn idle_keys() -> KeyState {
    KeyState { left: false, right: false, up: false, down: false }
}

/// Sampling with nothing pressed yields the all-zero record.
#[test]
fn idle_sampling_is_all_zero() {
    let (record, cached) =
        desktop_input(WindowFocus::Focused, &idle_keys(), false, false, None, (0, 0), 0);
    assert_eq!(record, PlayerInput { dir: 0, btn: 0, angle: 0 });
    assert_eq!(cached, 0);

    let mut touch = TouchMovement::new();
    let (record, _) = input(
        &mut touch,
        (0, 0),
        WindowFocus::Focused,
        &idle_keys(),
        false,
        false,
        None,
        (0, 0),
        0,
    );
    assert_eq!(record, PlayerInput { dir: 0, btn: 0, angle: 0 });
}

#[test]
fn keys_become_direction_and_move_bit() {
    let keys = KeyState { left: false, right: true, up: true, down: false };
    let (record, _) = desktop_input(WindowFocus::Focused, &keys, false, false, None, (0, 0), 7);
    assert!(record.moving());
    assert!(!record.fire());
    assert_eq!(record.dir, 32);
    assert_eq!(record.angle, 7);

    let keys = KeyState { left: true, right: false, up: false, down: false };
    let (record, _) = desktop_input(WindowFocus::Focused, &keys, false, false, None, (0, 0), 0);
    assert_eq!(record.dir, 192);

    let keys = KeyState { left: true, right: true, up: false, down: true };
    let (record, _) = desktop_input(WindowFocus::Focused, &keys, false, false, None, (0, 0), 0);
    assert!(record.moving());
    assert_eq!(record.dir, 128);
}

#[test]
fn fire_needs_focus_and_a_free_pointer() {
    let (record, _) = desktop_input(WindowFocus::Focused, &idle_keys(), true, false, None, (0, 0), 0);
    assert!(record.fire());
    let (record, _) = desktop_input(WindowFocus::Focused, &idle_keys(), true, true, None, (0, 0), 0);
    assert!(!record.fire());
    let (record, _) =
        desktop_input(WindowFocus::Unfocused, &idle_keys(), true, false, None, (0, 0), 0);
    assert!(!record.fire());
}

#[test]
fn aim_follows_the_cursor_and_falls_back_to_cache() {
    let (record, cached) = desktop_input(
        WindowFocus::Focused,
        &idle_keys(),
        false,
        false,
        Some((120, 20)),
        (20, 20),
        9,
    );
    assert_eq!(record.angle, 64);
    assert_eq!(cached, 64);
    let (record, cached) =
        desktop_input(WindowFocus::Focused, &idle_keys(), false, false, None, (20, 20), 64);
    assert_eq!(record.angle, 64);
    assert_eq!(cached, 64);
}

#[test]
fn no_window_yields_the_default_record() {
    let keys = KeyState { left: true, right: false, up: true, down: false };
    let (record, cached) =
        desktop_input(WindowFocus::NoWindow, &keys, true, false, Some((5, 5)), (0, 0), 42);
    assert_eq!(record, PlayerInput { dir: 0, btn: 0, angle: 0 });
    assert_eq!(cached, 42);
}

#[test]
fn button_bits_read_back() {
    let record = PlayerInput { dir: 0, btn: MOVE, angle: 0 };
    assert!(record.moving());
    assert!(!record.fire());
    let record = PlayerInput { dir: 0, btn: FIRE, angle: 0 };
    assert!(record.fire());
    assert!(!record.moving());
    let record = PlayerInput { dir: 0, btn: MOVE | FIRE, angle: 0 };
    assert!(record.fire());
    assert!(record.moving());
}

#[test]
fn direction_is_the_unit_vector_of_the_byte() {
    let record = PlayerInput { dir: 64, btn: MOVE, angle: 0 };
    assert_eq!(record.direction(), (256, 0));
    let record = PlayerInput { dir: 0, btn: MOVE, angle: 0 };
    assert_eq!(record.direction(), (0, 256));
}

/// The three-byte wire layout survives a round trip, and decode never
/// fails on a fixed-width record.
#[test]
fn wire_round_trip() {
    let record = PlayerInput { dir: 17, btn: 3, angle: 200 };
    let bytes = record.to_bytes();
    assert_eq!(bytes, [17, 3, 200]);
    assert_eq!(PlayerInput::from_bytes(&bytes), Ok(record));
}

#[test]
fn decode_rejects_wrong_widths() {
    assert_eq!(PlayerInput::from_bytes(&[1, 2]), Err(GameError::InputDecodeError));
    assert_eq!(PlayerInput::from_bytes(&[1, 2, 3, 4]), Err(GameError::InputDecodeError));
    assert_eq!(PlayerInput::from_bytes(&[]), Err(GameError::InputDecodeError));
}

#[test]
fn facing_thresholds() {
    assert_eq!(facing_from_angle(0), Facing::Up);
    assert_eq!(facing_from_angle(31), Facing::Up);
    assert_eq!(facing_from_angle(32), Facing::Right);
    assert_eq!(facing_from_angle(95), Facing::Right);
    assert_eq!(facing_from_angle(96), Facing::Down);
    assert_eq!(facing_from_angle(159), Facing::Down);
    assert_eq!(facing_from_angle(160), Facing::Left);
    assert_eq!(facing_from_angle(223), Facing::Left);
    assert_eq!(facing_from_angle(224), Facing::Up);
    assert_eq!(facing_from_angle(255), Facing::Up);
}
