//! The canonical per-tick input record and its capture path.
//!
//! Every real-world input source — keyboard and pointer, or multi-touch —
//! is reduced once per simulation tick to one fixed three-byte record,
//! which is what the peers exchange and what the simulation step consumes.

use vstd::prelude::*;

use crate::angle::spec_sin_byte;
use crate::angle::spec_to_u8_angle;
use crate::angle::spec_vec_to_angle;
use crate::angle::angle_to_vec;
use crate::angle::to_u8_angle;
use crate::angle::vec_to_angle;
use crate::angle::UNIT_SCALE;
use crate::error::GameError;
use crate::touch::spec_drain;
use crate::touch::spec_stick_dir;
use crate::touch::TouchMovement;
use crate::touch::TOUCH_COORD_BOUND;

verus! {

/// Button bit: some movement input is held.
pub const MOVE: u8 = 1;

/// Button bit: the fire control is held.
pub const FIRE: u8 = 2;

/// Screen coordinates passed to the sampler stay below this bound, so that
/// angle interpolation cannot overflow.
pub const COORD_BOUND: i64 = 0x1_0000_0000;

/// The canonical input record: three bytes, no padding.
///
/// `dir` is the quantized movement angle, `btn` the button bitfield,
/// `angle` the quantized aim angle. It is value-comparable and travels on
/// the wire as its three raw bytes.
#[derive(Clone, Copy, Debug, PartialEq, Eq, Structural, Hash)]
pub struct PlayerInput {
    pub dir: u8,
    pub btn: u8,
    pub angle: u8,
}

impl PlayerInput {
    /// The record that reports no movement, no buttons and aim up.
    pub open spec fn spec_zero() -> PlayerInput {
        PlayerInput { dir: 0, btn: 0, angle: 0 }
    }

    /// The fire bit of the record.
    pub open spec fn spec_fire(self) -> bool {
        self.btn & FIRE != 0
    }

    /// The move bit of the record.
    pub open spec fn spec_moving(self) -> bool {
        self.btn & MOVE != 0
    }

    /// Whether the fire control is held in this record.
    pub fn fire(&self) -> (r: bool)
        ensures
            r == self.spec_fire(),
    {
        self.btn & FIRE != 0
    }

    /// Whether any movement input is held in this record.
    pub fn moving(&self) -> (r: bool)
        ensures
            r == self.spec_moving(),
    {
        self.btn & MOVE != 0
    }

    /// The fixed-point unit vector of the record's movement angle.
    pub fn direction(&self) -> (v: (i32, i32))
        ensures
            v.0 == spec_sin_byte(self.dir as int),
            v.1 == spec_sin_byte(((self.dir + 64) % 256) as int),
            -UNIT_SCALE <= v.0 <= UNIT_SCALE,
            -UNIT_SCALE <= v.1 <= UNIT_SCALE,
    {
        angle_to_vec(self.dir)
    }

    /// The record's exact wire layout: direction, buttons, aim.
    pub fn to_bytes(&self) -> (bytes: [u8; 3])
        ensures
            bytes@ == seq![self.dir, self.btn, self.angle],
    {
        let bytes = [self.dir, self.btn, self.angle];
        proof {
            assert(bytes@ =~= seq![self.dir, self.btn, self.angle]);
        }
        bytes
    }

    /// Decode a wire record. Succeeds exactly on three-byte slices; a
    /// well-formed fixed-width record can therefore never fail to decode.
    pub fn from_bytes(bytes: &[u8]) -> (r: Result<PlayerInput, GameError>)
        ensures
            bytes@.len() == 3 ==> r == Ok::<PlayerInput, GameError>(
                PlayerInput { dir: bytes@[0], btn: bytes@[1], angle: bytes@[2] },
            ),
            bytes@.len() != 3 ==> r == Err::<PlayerInput, GameError>(GameError::InputDecodeError),
    {
        if bytes.len() == 3 {
            Ok(PlayerInput { dir: bytes[0], btn: bytes[1], angle: bytes[2] })
        } else {
            Err(GameError::InputDecodeError)
        }
    }
}

impl Default for PlayerInput {
    /// The all-zero record.
    fn default() -> (r: PlayerInput)
        ensures
            r == PlayerInput::spec_zero(),
    {
        PlayerInput { dir: 0, btn: 0, angle: 0 }
    }
}

/// Encoding a record and decoding the bytes gives the record back: decode
/// is total on fixed-width records, so a decode error on the wire marks a
/// protocol violation, not a runtime condition.
pub proof fn lemma_wire_round_trip(record: PlayerInput)
    ensures
        ({
            let bytes = seq![record.dir, record.btn, record.angle];
            bytes.len() == 3 && PlayerInput { dir: bytes[0], btn: bytes[1], angle: bytes[2] }
                == record
        }),
{
}

/// Which directional keys are held this tick.
#[derive(Clone, Copy, Debug, PartialEq, Eq, Structural)]
pub struct KeyState {
    pub left: bool,
    pub right: bool,
    pub up: bool,
    pub down: bool,
}

/// Whether a window exists and holds focus this tick.
#[derive(Clone, Copy, Debug, PartialEq, Eq, Structural)]
pub enum WindowFocus {
    NoWindow,
    Unfocused,
    Focused,
}

impl KeyState {
    /// The horizontal component of the summed key directions.
    pub open spec fn spec_dx(self) -> int {
        (if self.right { 1int } else { 0int }) - (if self.left { 1int } else { 0int })
    }

    /// The vertical component of the summed key directions, y up.
    pub open spec fn spec_dy(self) -> int {
        (if self.up { 1int } else { 0int }) - (if self.down { 1int } else { 0int })
    }

    /// No directional key is held.
    pub open spec fn spec_idle(self) -> bool {
        !self.left && !self.right && !self.up && !self.down
    }
}

/// What the keyboard-and-pointer sampler returns: the record, and the aim
/// angle to cache for the next tick.
pub open spec fn spec_desktop_input(
    window: WindowFocus,
    keys: KeyState,
    fire_held: bool,
    pointer_over_ui: bool,
    cursor: Option<(i64, i64)>,
    aim_origin: (i64, i64),
    cached_angle: u8,
) -> (PlayerInput, u8) {
    if window is NoWindow {
        (PlayerInput::spec_zero(), cached_angle)
    } else {
        let dx = if window is Focused { keys.spec_dx() } else { 0 };
        let dy = if window is Focused { keys.spec_dy() } else { 0 };
        let fire = window is Focused && fire_held && !pointer_over_ui;
        let moving = !(dx == 0 && dy == 0);
        let btn = (if moving { MOVE } else { 0 }) | (if fire { FIRE } else { 0 });
        let angle = match cursor {
            Some(pos) => spec_to_u8_angle(
                spec_from_vec(pos.0 - aim_origin.0, -(pos.1 - aim_origin.1)),
            ) as u8,
            None => cached_angle,
        };
        let dir = spec_vec_to_angle(dx, dy) as u8;
        (PlayerInput { dir, btn: btn as u8, angle }, angle)
    }
}

/// The turn-unit angle of a displacement, as the sampler derives it from
/// the pointer: the byte angle scaled back up to turn units.
pub open spec fn spec_from_vec(dx: int, dy: int) -> int {
    spec_vec_to_angle(dx, dy) * 256
}

/// Reduce this tick's keyboard and pointer state to the canonical record.
///
/// Movement is the sum of the four directional keys; fire is the primary
/// pointer button, suppressed while the pointer sits over a UI surface or
/// the window lacks focus. Aim derives from the pointer position relative
/// to `aim_origin` — the local player's position on screen — with y
/// inverted from screen to world; when no pointer position is available
/// the cached aim angle is reused. With no window at all, the all-zero
/// record is returned. The touch path, when it yields a record, takes
/// strict priority over all of this at the call site (`input`).
///
/// Returns the record and the aim angle to cache for the next tick.
pub fn desktop_input(
    window: WindowFocus,
    keys: &KeyState,
    fire_held: bool,
    pointer_over_ui: bool,
    cursor: Option<(i64, i64)>,
    aim_origin: (i64, i64),
    cached_angle: u8,
) -> (r: (PlayerInput, u8))
    requires
        (match cursor {
            Some(pos) => -COORD_BOUND <= pos.0 <= COORD_BOUND && -COORD_BOUND <= pos.1
                <= COORD_BOUND,
            None => true,
        }),
        -COORD_BOUND <= aim_origin.0 <= COORD_BOUND,
        -COORD_BOUND <= aim_origin.1 <= COORD_BOUND,
    ensures
        r == spec_desktop_input(
            window,
            *keys,
            fire_held,
            pointer_over_ui,
            cursor,
            aim_origin,
            cached_angle,
        ),
        !(window is NoWindow) ==> r.0.angle == r.1,
        window is NoWindow ==> r.0 == PlayerInput::spec_zero() && r.1 == cached_angle,
        keys.spec_idle() && !fire_held && cursor is None && cached_angle == 0 ==> r.0
            == PlayerInput::spec_zero(),
{
    match window {
        WindowFocus::NoWindow => (PlayerInput { dir: 0, btn: 0, angle: 0 }, cached_angle),
        _ => {
            let focused = matches!(window, WindowFocus::Focused);
            let mut dx: i64 = 0;
            let mut dy: i64 = 0;
            let mut fire = false;
            if focused {
                if keys.left {
                    dx = dx - 1;
                }
                if keys.right {
                    dx = dx + 1;
                }
                if keys.up {
                    dy = dy + 1;
                }
                if keys.down {
                    dy = dy - 1;
                }
                fire = fire_held && !pointer_over_ui;
            }
            let moving = !(dx == 0 && dy == 0);
            let btn: u8 = (if moving { MOVE } else { 0 }) | (if fire { FIRE } else { 0 });
            proof {
                assert((0u8 | 0u8) == 0u8) by (bit_vector);
            }
            let angle: u8 = match cursor {
                Some(pos) => {
                    let rel_x = pos.0 - aim_origin.0;
                    let rel_y = -(pos.1 - aim_origin.1);
                    let byte = vec_to_angle(rel_x, rel_y);
                    to_u8_angle(byte as u32 * 256)
                },
                None => cached_angle,
            };
            let dir = vec_to_angle(dx, dy);
            (PlayerInput { dir, btn, angle }, angle)
        },
    }
}

/// Sample the local player's canonical record for this tick.
///
/// The touch path is drained first and takes strict priority: when it
/// yields a record, the desktop-derived record for the tick is discarded,
/// never merged. Otherwise the keyboard-and-pointer path supplies the
/// record. Remote slots are never sampled here; their records arrive
/// through the transport. Returns the record and the aim angle to cache.
pub fn input(
    touch: &mut TouchMovement,
    player_screen_pos: (i64, i64),
    window: WindowFocus,
    keys: &KeyState,
    fire_held: bool,
    pointer_over_ui: bool,
    cursor: Option<(i64, i64)>,
    aim_origin: (i64, i64),
    cached_angle: u8,
) -> (r: (PlayerInput, u8))
    requires
        old(touch).wf(),
        -TOUCH_COORD_BOUND <= player_screen_pos.0 <= TOUCH_COORD_BOUND,
        -TOUCH_COORD_BOUND <= player_screen_pos.1 <= TOUCH_COORD_BOUND,
        (match cursor {
            Some(pos) => -COORD_BOUND <= pos.0 <= COORD_BOUND && -COORD_BOUND <= pos.1
                <= COORD_BOUND,
            None => true,
        }),
        -COORD_BOUND <= aim_origin.0 <= COORD_BOUND,
        -COORD_BOUND <= aim_origin.1 <= COORD_BOUND,
    ensures
        final(touch).wf(),
        final(touch).fingers@ == old(touch).fingers@,
        final(touch).stick_id == old(touch).stick_id,
        final(touch).fire_touch is None,
        (match spec_drain(*old(touch), player_screen_pos, cached_angle) {
            Some(t) => r.0 == t && r.1 == t.angle,
            None => r == spec_desktop_input(
                window,
                *keys,
                fire_held,
                pointer_over_ui,
                cursor,
                aim_origin,
                cached_angle,
            ),
        }),
        old(touch).fire_touch is None && spec_stick_dir(*old(touch)) is None && keys.spec_idle()
            && !fire_held && cursor is None && cached_angle == 0 && !(window is NoWindow) ==> r.0
            == PlayerInput::spec_zero(),
{
    let drained = touch.drain(player_screen_pos, cached_angle);
    match drained {
        Some(t) => {
            let cached = t.angle;
            (t, cached)
        },
        None => desktop_input(
            window,
            keys,
            fire_held,
            pointer_over_ui,
            cursor,
            aim_origin,
            cached_angle,
        ),
    }
}

} // verus!
