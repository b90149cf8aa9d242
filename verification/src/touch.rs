//! The touch gesture interpreter: the alternate producer of the canonical
//! input record from multi-finger touch streams.
//!
//! Each finger lives from its start event to its end or cancel event. A
//! finger that ends without ever dragging past the tap threshold requests a
//! tap-fire at its release point. The first finger to drag past the
//! threshold claims the virtual joystick role; releasing it frees the role.
//! Raw events mutate the aggregate; `drain` flushes it exactly once per
//! simulation tick.

use vstd::prelude::*;

use crate::angle::spec_vec_to_angle;
use crate::angle::vec_to_angle;
use crate::input::PlayerInput;
use crate::input::FIRE;
use crate::input::MOVE;

verus! {

/// Dragging at least this far (squared pixels) ends a finger's tap state.
pub const TAP_MAX_DISTANCE_SQ: i64 = 100;

/// Touch coordinates stay within this many pixels of the origin, so that
/// squared distances cannot overflow.
pub const TOUCH_COORD_BOUND: i64 = 0x100_0000;

/// The lifecycle phase a raw touch event reports.
#[derive(Clone, Copy, Debug, PartialEq, Eq, Structural)]
pub enum TouchPhase {
    Started,
    Moved,
    Ended,
    Canceled,
}

/// One raw touch event: a finger id, a phase, and a screen position in
/// pixels, y pointing down as screens do.
#[derive(Clone, Copy, Debug, PartialEq, Eq, Structural)]
pub struct TouchEvent {
    pub phase: TouchPhase,
    pub id: u64,
    pub x: i64,
    pub y: i64,
}

/// The ephemeral state of one active finger: where it started, where it
/// is, and whether it still counts as a tap.
#[derive(Clone, Copy, Debug, PartialEq, Eq, Structural)]
pub struct TouchFinger {
    pub id: u64,
    pub start_x: i64,
    pub start_y: i64,
    pub x: i64,
    pub y: i64,
    pub tap: bool,
}

impl TouchFinger {
    /// All four coordinates sit within the touch bound.
    pub open spec fn in_bounds(self) -> bool {
        &&& -TOUCH_COORD_BOUND <= self.start_x <= TOUCH_COORD_BOUND
        &&& -TOUCH_COORD_BOUND <= self.start_y <= TOUCH_COORD_BOUND
        &&& -TOUCH_COORD_BOUND <= self.x <= TOUCH_COORD_BOUND
        &&& -TOUCH_COORD_BOUND <= self.y <= TOUCH_COORD_BOUND
    }

    /// The squared drag distance from the finger's start position.
    pub open spec fn spec_dist_sq(self) -> int {
        (self.x - self.start_x) * (self.x - self.start_x) + (self.y - self.start_y) * (self.y
            - self.start_y)
    }
}

/// The aggregate touch state: the active fingers, which of them (if any)
/// holds the virtual joystick role, and a pending tap-fire position.
#[derive(Debug)]
pub struct TouchMovement {
    pub fingers: Vec<TouchFinger>,
    pub stick_id: Option<u64>,
    pub fire_touch: Option<(i64, i64)>,
}

/// Whether some active finger carries the given id.
pub open spec fn spec_has_finger(fingers: Seq<TouchFinger>, id: u64) -> bool {
    exists|i: int| 0 <= i < fingers.len() && fingers[i].id == id
}

/// The index of the finger with the given id; meaningful only when ids
/// are unique and the finger exists.
pub open spec fn spec_finger_index(fingers: Seq<TouchFinger>, id: u64) -> int {
    choose|i: int| 0 <= i < fingers.len() && fingers[i].id == id
}

/// With unique ids, any index holding the id is the chosen index.
proof fn lemma_choose_unique(fingers: Seq<TouchFinger>, id: u64, i: int)
    requires
        forall|a: int, b: int| 0 <= a < b < fingers.len() ==> fingers[a].id != fingers[b].id,
        0 <= i < fingers.len(),
        fingers[i].id == id,
    ensures
        spec_has_finger(fingers, id),
        spec_finger_index(fingers, id) == i,
{
    assert(spec_has_finger(fingers, id));
    let j = spec_finger_index(fingers, id);
    if j < i {
        assert(fingers[j].id != fingers[i].id);
    } else if i < j {
        assert(fingers[i].id != fingers[j].id);
    }
}

impl TouchMovement {
    /// Well-formedness: finger ids are unique, every coordinate is in
    /// bounds, and the joystick role is only ever held by an active finger
    /// that has already dragged past the tap threshold.
    pub open spec fn wf(self) -> bool {
        &&& forall|i: int, j: int|
            0 <= i < j < self.fingers@.len() ==> self.fingers@[i].id != self.fingers@[j].id
        &&& forall|i: int| 0 <= i < self.fingers@.len() ==> self.fingers@[i].in_bounds()
        &&& (match self.stick_id {
            Some(sid) => spec_has_finger(self.fingers@, sid) && !self.fingers@[spec_finger_index(
                self.fingers@,
                sid,
            )].tap,
            None => true,
        })
        &&& (match self.fire_touch {
            Some(pos) => -TOUCH_COORD_BOUND <= pos.0 <= TOUCH_COORD_BOUND && -TOUCH_COORD_BOUND
                <= pos.1 <= TOUCH_COORD_BOUND,
            None => true,
        })
    }

    /// No fingers, no joystick, no pending tap-fire.
    pub fn new() -> (r: TouchMovement)
        ensures
            r.wf(),
            r.fingers@.len() == 0,
            r.stick_id is None,
            r.fire_touch is None,
    {
        TouchMovement { fingers: Vec::new(), stick_id: None, fire_touch: None }
    }

    /// The index of the active finger with the given id, if any.
    fn find(&self, id: u64) -> (r: Option<usize>)
        ensures
            (match r {
                Some(i) => i < self.fingers@.len() && self.fingers@[i as int].id == id,
                None => !spec_has_finger(self.fingers@, id),
            }),
    {
        let mut i: usize = 0;
        while i < self.fingers.len()
            invariant
                i <= self.fingers@.len(),
                forall|j: int| 0 <= j < i ==> self.fingers@[j].id != id,
            decreases self.fingers@.len() - i,
        {
            if self.fingers[i].id == id {
                return Some(i);
            }
            i = i + 1;
        }
        None
    }

    /// Ingest one raw touch event.
    ///
    /// A start records a fresh finger as a potential tap. A move updates
    /// the finger's position; crossing the tap threshold irreversibly ends
    /// its tap state and claims the joystick role if the role is free. An
    /// end or cancel removes the finger, frees the joystick role if that
    /// finger held it, and turns a still-tapping finger's release point
    /// into the pending tap-fire request.
    pub fn apply_event(&mut self, event: TouchEvent)
        requires
            old(self).wf(),
            -TOUCH_COORD_BOUND <= event.x <= TOUCH_COORD_BOUND,
            -TOUCH_COORD_BOUND <= event.y <= TOUCH_COORD_BOUND,
            event.phase is Started ==> !spec_has_finger(old(self).fingers@, event.id),
            (event.phase is Ended || event.phase is Canceled) ==> spec_has_finger(
                old(self).fingers@,
                event.id,
            ),
        ensures
            final(self).wf(),
            event.phase is Started ==> final(self).fingers@ == old(self).fingers@.push(
                TouchFinger {
                    id: event.id,
                    start_x: event.x,
                    start_y: event.y,
                    x: event.x,
                    y: event.y,
                    tap: true,
                },
            ) && final(self).stick_id == old(self).stick_id && final(self).fire_touch == old(
                self).fire_touch,
            event.phase is Moved && !spec_has_finger(old(self).fingers@, event.id) ==> (final(
                self).fingers@ == old(self).fingers@ && final(self).stick_id == old(self).stick_id
                && final(self).fire_touch == old(self).fire_touch),
            event.phase is Moved && spec_has_finger(old(self).fingers@, event.id) ==> ({
                let i = spec_finger_index(old(self).fingers@, event.id);
                let f = old(self).fingers@[i];
                let moved = TouchFinger { x: event.x, y: event.y, ..f };
                let crossed = moved.spec_dist_sq() >= TAP_MAX_DISTANCE_SQ;
                let updated = if crossed {
                    TouchFinger { tap: false, ..moved }
                } else {
                    moved
                };
                &&& final(self).fingers@ == old(self).fingers@.update(i, updated)
                &&& final(self).stick_id == (if crossed && old(self).stick_id is None {
                    Some(event.id)
                } else {
                    old(self).stick_id
                })
                &&& final(self).fire_touch == old(self).fire_touch
            }),
            (event.phase is Ended || event.phase is Canceled) ==> ({
                let i = spec_finger_index(old(self).fingers@, event.id);
                let f = old(self).fingers@[i];
                &&& final(self).fingers@ == old(self).fingers@.remove(i)
                &&& final(self).stick_id == (if old(self).stick_id == Some(event.id) {
                    None::<u64>
                } else {
                    old(self).stick_id
                })
                &&& final(self).fire_touch == (if f.tap {
                    Some((event.x, event.y))
                } else {
                    old(self).fire_touch
                })
            }),
    {
        match event.phase {
            TouchPhase::Started => {
                self.fingers.push(
                    TouchFinger {
                        id: event.id,
                        start_x: event.x,
                        start_y: event.y,
                        x: event.x,
                        y: event.y,
                        tap: true,
                    },
                );
                proof {
                    let before = old(self).fingers@;
                    let after = self.fingers@;
                    assert forall|a: int, b: int| 0 <= a < b < after.len() implies after[a].id
                        != after[b].id by {
                        if b < before.len() {
                            assert(before[a].id != before[b].id);
                        } else {
                            assert(after[a] == before[a]);
                        }
                    }
                    match self.stick_id {
                        Some(sid) => {
                            let j = spec_finger_index(before, sid);
                            assert(before[j].id == sid);
                            lemma_choose_unique(after, sid, j);
                        },
                        None => {},
                    }
                }
            },
            TouchPhase::Moved => {
                let found = self.find(event.id);
                if let Some(i) = found {
                    proof {
                        lemma_choose_unique(self.fingers@, event.id, i as int);
                    }
                    let f = self.fingers[i];
                    let mut updated = TouchFinger { x: event.x, y: event.y, ..f };
                    let ndx = updated.x - updated.start_x;
                    let ndy = updated.y - updated.start_y;
                    proof {
                        assert(0 <= ndx * ndx <= 0x2000000 * 0x2000000) by (nonlinear_arith)
                            requires
                                -0x2000000 <= ndx <= 0x2000000,
                        ;
                        assert(0 <= ndy * ndy <= 0x2000000 * 0x2000000) by (nonlinear_arith)
                            requires
                                -0x2000000 <= ndy <= 0x2000000,
                        ;
                    }
                    let crossed = ndx * ndx + ndy * ndy >= TAP_MAX_DISTANCE_SQ;
                    if crossed {
                        updated.tap = false;
                    }
                    self.fingers[i] = updated;
                    if crossed && self.stick_id.is_none() {
                        self.stick_id = Some(event.id);
                    }
                    proof {
                        let before = old(self).fingers@;
                        let after = self.fingers@;
                        assert forall|a: int, b: int| 0 <= a < b < after.len() implies after[a].id
                            != after[b].id by {
                            assert(before[a].id != before[b].id);
                            assert(after[a].id == before[a].id);
                            assert(after[b].id == before[b].id);
                        }
                        match self.stick_id {
                            Some(sid) => {
                                if sid == event.id {
                                    lemma_choose_unique(after, sid, i as int);
                                    if old(self).stick_id == Some(event.id) {
                                        assert(spec_finger_index(before, sid) == i as int);
                                    }
                                } else {
                                    let j = spec_finger_index(before, sid);
                                    assert(before[j].id == sid);
                                    assert(j != i as int);
                                    lemma_choose_unique(after, sid, j);
                                }
                            },
                            None => {},
                        }
                    }
                }
            },
            TouchPhase::Ended | TouchPhase::Canceled => {
                let found = self.find(event.id);
                if let Some(i) = found {
                    proof {
                        lemma_choose_unique(self.fingers@, event.id, i as int);
                    }
                    let f = self.fingers.remove(i);
                    match self.stick_id {
                        Some(sid) => {
                            if sid == event.id {
                                self.stick_id = None;
                            }
                        },
                        None => {},
                    }
                    if f.tap {
                        self.fire_touch = Some((event.x, event.y));
                    }
                    proof {
                        let before = old(self).fingers@;
                        let after = self.fingers@;
                        assert forall|a: int, b: int| 0 <= a < b < after.len() implies after[a].id
                            != after[b].id by {
                            let a0 = if a < i as int {
                                a
                            } else {
                                a + 1
                            };
                            let b0 = if b < i as int {
                                b
                            } else {
                                b + 1
                            };
                            assert(after[a].id == before[a0].id);
                            assert(after[b].id == before[b0].id);
                            assert(before[a0].id != before[b0].id);
                        }
                        match self.stick_id {
                            Some(sid) => {
                                let j = spec_finger_index(before, sid);
                                assert(before[j].id == sid);
                                assert(j != i as int);
                                if j < i as int {
                                    assert(after[j].id == sid);
                                    lemma_choose_unique(after, sid, j);
                                } else {
                                    assert(after[j - 1].id == sid);
                                    lemma_choose_unique(after, sid, j - 1);
                                }
                            },
                            None => {},
                        }
                    }
                }
            },
        }
    }
}

/// The movement byte the virtual joystick currently reports: the angle of
/// the stick finger's drag, with screen y inverted to world y. `None`
/// when no active finger holds the joystick role.
pub open spec fn spec_stick_dir(t: TouchMovement) -> Option<u8> {
    match t.stick_id {
        None => None,
        Some(sid) => if spec_has_finger(t.fingers@, sid) {
            let f = t.fingers@[spec_finger_index(t.fingers@, sid)];
            Some(spec_vec_to_angle(f.x - f.start_x, -(f.y - f.start_y)) as u8)
        } else {
            None
        },
    }
}

/// The aim byte a pending tap-fire reports: the angle from the player's
/// screen position toward the tap, with screen y inverted to world y.
pub open spec fn spec_fire_angle(t: TouchMovement, player_pos: (i64, i64)) -> Option<u8> {
    match t.fire_touch {
        None => None,
        Some(pos) => Some(
            spec_vec_to_angle(pos.0 - player_pos.0, -(pos.1 - player_pos.1)) as u8,
        ),
    }
}

/// What `drain` returns: `None` when nothing fired or moved, else the
/// record assembled from the pending tap-fire and the live joystick.
pub open spec fn spec_drain(t: TouchMovement, player_pos: (i64, i64), default_angle: u8) -> Option<
    PlayerInput,
> {
    let fire = t.fire_touch is Some;
    let stick = spec_stick_dir(t);
    let moving = stick is Some;
    if !fire && !moving {
        None
    } else {
        let angle = match spec_fire_angle(t, player_pos) {
            Some(a) => a,
            None => default_angle,
        };
        let dir = match stick {
            Some(d) => d,
            None => 0,
        };
        let btn = (if moving {
            MOVE
        } else {
            0
        }) | (if fire {
            FIRE
        } else {
            0
        });
        Some(PlayerInput { dir, btn, angle })
    }
}

impl TouchMovement {
    /// Flush the buffered gestures into a canonical record, once per tick.
    ///
    /// A pending tap-fire sets the fire bit, aims toward the tap and is
    /// cleared; otherwise the caller's `default_angle` is kept. A live
    /// joystick finger sets the move bit with its drag direction. `None`
    /// comes back when nothing fired or moved, so the desktop path stays
    /// usable as a fallback.
    ///
    /// The fire bit is reported exactly when a tap-fire was pending, and
    /// the move bit only for a finger that is still active and past the
    /// tap threshold — never a stale direction from a lifted finger.
    pub fn drain(&mut self, player_pos: (i64, i64), default_angle: u8) -> (r: Option<PlayerInput>)
        requires
            old(self).wf(),
            -TOUCH_COORD_BOUND <= player_pos.0 <= TOUCH_COORD_BOUND,
            -TOUCH_COORD_BOUND <= player_pos.1 <= TOUCH_COORD_BOUND,
        ensures
            final(self).wf(),
            final(self).fingers@ == old(self).fingers@,
            final(self).stick_id == old(self).stick_id,
            final(self).fire_touch is None,
            r == spec_drain(*old(self), player_pos, default_angle),
            old(self).fire_touch is Some ==> (r matches Some(inp) && inp.spec_fire()),
            (r matches Some(inp) && inp.spec_fire()) ==> old(self).fire_touch is Some,
            (r matches Some(inp) && inp.spec_moving()) ==> (match old(self).stick_id {
                Some(sid) => spec_has_finger(old(self).fingers@, sid) && !old(
                    self,
                ).fingers@[spec_finger_index(old(self).fingers@, sid)].tap,
                None => false,
            }),
            r is None <==> (old(self).fire_touch is None && spec_stick_dir(*old(self)) is None),
    {
        proof {
            assert((0u8 | 2u8) == 2u8 && (0u8 | 1u8) == 1u8 && (2u8 | 1u8) == 3u8 && (1u8 | 2u8)
                == 3u8 && (3u8 & 2u8) == 2u8 && (3u8 & 1u8) == 1u8 && (2u8 & 2u8) == 2u8 && (2u8
                & 1u8) == 0u8 && (1u8 & 2u8) == 0u8 && (1u8 & 1u8) == 1u8 && (1u8 | 0u8) == 1u8
                && (2u8 | 0u8) == 2u8 && (0u8 | 0u8) == 0u8) by (bit_vector);
        }
        let mut btn: u8 = 0;
        let angle: u8 = match self.fire_touch {
            Some(pos) => {
                btn = btn | FIRE;
                self.fire_touch = None;
                let dx = pos.0 - player_pos.0;
                let dy = -(pos.1 - player_pos.1);
                vec_to_angle(dx, dy)
            },
            None => default_angle,
        };
        let mut dir: u8 = 0;
        let mut moving = false;
        match self.stick_id {
            Some(sid) => {
                let found = self.find(sid);
                if let Some(i) = found {
                    proof {
                        lemma_choose_unique(self.fingers@, sid, i as int);
                    }
                    let f = self.fingers[i];
                    dir = vec_to_angle(f.x - f.start_x, -(f.y - f.start_y));
                    moving = true;
                    btn = btn | MOVE;
                }
            },
            None => {},
        }
        if btn == 0 {
            None
        } else {
            Some(PlayerInput { dir, btn, angle })
        }
    }
}

impl Default for TouchMovement {
    /// The idle aggregate: no fingers, no joystick, no pending tap-fire.
    fn default() -> (r: TouchMovement)
        ensures
            r.wf(),
            r.fingers@.len() == 0,
            r.stick_id is None,
            r.fire_touch is None,
    {
        TouchMovement::new()
    }
}

} // verus!
