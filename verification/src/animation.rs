//! Sprite animation selection.
//!
//! Presentation-only: which frames an entity shows follows from post-step
//! state each tick and is never rollback-tracked or resimulated. The
//! selection logic is still pure, so it lives here with the rest of the
//! deterministic code.

use vstd::prelude::*;

use crate::component::Facing;
use crate::component::Velocity;

verus! {

/// A sprite animation: the atlas frames to cycle through and whether to
/// mirror them.
#[derive(Clone, Debug, PartialEq, Eq)]
pub struct AnimationIndices {
    pub frames: Vec<usize>,
    pub flip_x: bool,
    pub flip_y: bool,
}

/// The current frame index of a playing animation.
#[derive(Clone, Copy, Debug, PartialEq, Eq, Structural)]
pub struct AnimationFrame(pub usize);

impl AnimationIndices {
    /// The unmirrored animation over a contiguous frame range.
    pub fn from_range(first: usize, last: usize) -> (r: AnimationIndices)
        requires
            first <= last,
            last < usize::MAX,
        ensures
            r.frames@.len() == last - first + 1,
            forall|i: int| 0 <= i < r.frames@.len() ==> r.frames@[i] == first + i,
            !r.flip_x,
            !r.flip_y,
    {
        let mut frames: Vec<usize> = Vec::new();
        let mut f: usize = first;
        while f <= last
            invariant
                first <= f <= last + 1,
                last < usize::MAX,
                frames@.len() == f - first,
                forall|i: int| 0 <= i < frames@.len() ==> frames@[i] == first + i,
            decreases last + 1 - f,
        {
            frames.push(f);
            f = f + 1;
        }
        AnimationIndices { frames, flip_x: false, flip_y: false }
    }

    /// The unmirrored animation over the tile ids of a map tile's
    /// animation frames.
    pub fn from_frames(tile_ids: &Vec<u32>) -> (r: AnimationIndices)
        ensures
            r.frames@.len() == tile_ids@.len(),
            forall|i: int| 0 <= i < r.frames@.len() ==> r.frames@[i] == tile_ids@[i] as usize,
            !r.flip_x,
            !r.flip_y,
    {
        let mut frames: Vec<usize> = Vec::new();
        let mut i: usize = 0;
        while i < tile_ids.len()
            invariant
                i <= tile_ids@.len(),
                frames@.len() == i,
                forall|j: int| 0 <= j < frames@.len() ==> frames@[j] == tile_ids@[j] as usize,
            decreases tile_ids@.len() - i,
        {
            frames.push(tile_ids[i] as usize);
            i = i + 1;
        }
        AnimationIndices { frames, flip_x: false, flip_y: false }
    }

    /// The same animation with the mirroring set as given.
    pub fn with_flip(self, x: bool, y: bool) -> (r: AnimationIndices)
        ensures
            r.frames@ == self.frames@,
            r.flip_x == x,
            r.flip_y == y,
    {
        AnimationIndices { flip_x: x, flip_y: y, ..self }
    }
}

/// The two states of the bow sprite.
#[derive(Clone, Copy, Debug, PartialEq, Eq, Structural)]
pub enum BowAnimation {
    Empty,
    Draw,
}

impl BowAnimation {
    /// The frames of this bow state: the empty bow holds frame zero,
    /// the draw cycles frames one to three.
    pub fn indices(&self) -> (r: AnimationIndices)
        ensures
            *self is Empty ==> r.frames@ == seq![0usize],
            *self is Draw ==> r.frames@ == seq![1usize, 2usize, 3usize],
            !r.flip_x && !r.flip_y,
    {
        let r = match self {
            BowAnimation::Empty => AnimationIndices::from_range(0, 0),
            BowAnimation::Draw => AnimationIndices::from_range(1, 3),
        };
        proof {
            if *self is Empty {
                assert(r.frames@ =~= seq![0usize]);
            } else {
                assert(r.frames@ =~= seq![1usize, 2usize, 3usize]);
            }
        }
        r
    }
}

/// The bow state the shot timer selects: drawn again once the shot is
/// more than ten frames old.
pub fn bow_animation(since_last: usize) -> (r: BowAnimation)
    ensures
        r is Draw <==> since_last > 10,
{
    if since_last > 10 {
        BowAnimation::Draw
    } else {
        BowAnimation::Empty
    }
}

/// The two states of the player sprite, each with a facing.
#[derive(Clone, Copy, Debug, PartialEq, Eq, Structural)]
pub enum PlayerAnimation {
    Walk(Facing),
    Stand(Facing),
}

impl PlayerAnimation {
    /// The frame range and mirroring of this player state: walking
    /// cycles eight frames per direction, standing holds the first;
    /// facing right mirrors the left-facing frames.
    pub fn indices(&self) -> (r: AnimationIndices)
        ensures
            *self == PlayerAnimation::Walk(Facing::Down) ==> r.frames@.len() == 8
                && r.frames@[0] == 0 && !r.flip_x,
            *self == PlayerAnimation::Walk(Facing::Left) ==> r.frames@.len() == 8
                && r.frames@[0] == 8 && !r.flip_x,
            *self == PlayerAnimation::Walk(Facing::Right) ==> r.frames@.len() == 8
                && r.frames@[0] == 8 && r.flip_x,
            *self == PlayerAnimation::Walk(Facing::Up) ==> r.frames@.len() == 8
                && r.frames@[0] == 16 && !r.flip_x,
            *self == PlayerAnimation::Stand(Facing::Down) ==> r.frames@ == seq![0usize]
                && !r.flip_x,
            *self == PlayerAnimation::Stand(Facing::Left) ==> r.frames@ == seq![8usize]
                && !r.flip_x,
            *self == PlayerAnimation::Stand(Facing::Right) ==> r.frames@ == seq![8usize]
                && r.flip_x,
            *self == PlayerAnimation::Stand(Facing::Up) ==> r.frames@ == seq![16usize]
                && !r.flip_x,
            forall|i: int| 0 <= i < r.frames@.len() ==> #[trigger] r.frames@[i] == r.frames@[0] + i,
            r.frames@.len() >= 1,
            !r.flip_y,
    {
        let r = match self {
            PlayerAnimation::Walk(Facing::Down) => AnimationIndices::from_range(0, 7),
            PlayerAnimation::Walk(Facing::Left) => AnimationIndices::from_range(8, 15),
            PlayerAnimation::Walk(Facing::Right) => AnimationIndices::from_range(8, 15).with_flip(
                true,
                false,
            ),
            PlayerAnimation::Walk(Facing::Up) => AnimationIndices::from_range(16, 23),
            PlayerAnimation::Stand(Facing::Down) => AnimationIndices::from_range(0, 0),
            PlayerAnimation::Stand(Facing::Left) => AnimationIndices::from_range(8, 8),
            PlayerAnimation::Stand(Facing::Right) => AnimationIndices::from_range(8, 8).with_flip(
                true,
                false,
            ),
            PlayerAnimation::Stand(Facing::Up) => AnimationIndices::from_range(16, 16),
        };
        proof {
            if r.frames@.len() == 1 {
                assert(r.frames@ =~= seq![r.frames@[0]]);
            }
        }
        r
    }
}

/// The player animation a velocity and facing select: one standing
/// frame at rest, the eight-frame walk cycle in motion, mirrored for a
/// right-facing player.
pub fn player_animation_indices(vel: &Velocity, facing: Facing) -> (r: AnimationIndices)
    ensures
        vel.x == 0 && vel.y == 0 ==> r.frames@.len() == 1,
        !(vel.x == 0 && vel.y == 0) ==> r.frames@.len() == 8,
        facing is Down ==> r.frames@[0] == 0 && !r.flip_x,
        facing is Left ==> r.frames@[0] == 8 && !r.flip_x,
        facing is Right ==> r.frames@[0] == 8 && r.flip_x,
        facing is Up ==> r.frames@[0] == 16 && !r.flip_x,
        forall|i: int| 0 <= i < r.frames@.len() ==> #[trigger] r.frames@[i] == r.frames@[0] + i,
        !r.flip_y,
{
    let anim = if vel.x == 0 && vel.y == 0 {
        PlayerAnimation::Stand(facing)
    } else {
        PlayerAnimation::Walk(facing)
    };
    anim.indices()
}

/// The next frame of a playing animation: advance with wraparound,
/// except that a one-shot animation holds its last frame.
pub fn advance_frame(frame: usize, frame_count: usize, repeating: bool) -> (r: usize)
    requires
        frame_count >= 1,
        frame < frame_count,
    ensures
        frame + 1 < frame_count ==> r == frame + 1,
        frame + 1 == frame_count && repeating ==> r == 0,
        frame + 1 == frame_count && !repeating ==> r == frame,
{
    let max_frame = frame_count - 1;
    if frame == max_frame {
        if !repeating {
            max_frame
        } else {
            0
        }
    } else {
        frame + 1
    }
}

} // verus!
