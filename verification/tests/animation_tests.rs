use p2pg::animation::{
    advance_frame, bow_animation, player_animation_indices, AnimationIndices, BowAnimation,
    PlayerAnimation,
};
use p2pg::component::{Facing, Velocity};

#[test]
fn ranges_and_flips() {
    let anim = AnimationIndices::from_range(3, 6);
    assert_eq!(anim.frames, vec![3, 4, 5, 6]);
    assert!(!anim.flip_x && !anim.flip_y);
    let flipped = anim.with_flip(true, false);
    assert_eq!(flipped.frames, vec![3, 4, 5, 6]);
    assert!(flipped.flip_x && !flipped.flip_y);
}

#[test]
fn tile_frames_copy_over() {
    let anim = AnimationIndices::from_frames(&vec![7u32, 9, 11]);
    assert_eq!(anim.frames, vec![7, 9, 11]);
}

#[test]
fn bow_states() {
    assert_eq!(BowAnimation::Empty.indices().frames, vec![0]);
    assert_eq!(BowAnimation::Draw.indices().frames, vec![1, 2, 3]);
    assert_eq!(bow_animation(11), BowAnimation::Draw);
    assert_eq!(bow_animation(10), BowAnimation::Empty);
}

#[test]
fn player_states() {
    assert_eq!(PlayerAnimation::Walk(Facing::Down).indices().frames, vec![0, 1, 2, 3, 4, 5, 6, 7]);
    let right = PlayerAnimation::Walk(Facing::Right).indices();
    assert_eq!(right.frames, vec![8, 9, 10, 11, 12, 13, 14, 15]);
    assert!(right.flip_x);
    assert_eq!(PlayerAnimation::Stand(Facing::Up).indices().frames, vec![16]);
}

#[test]
fn velocity_selects_stand_or_walk() {
    let standing = player_animation_indices(&Velocity { x: 0, y: 0 }, Facing::Down);
    assert_eq!(standing.frames, vec![0]);
    let walking = player_animation_indices(&Velocity { x: 358, y: 0 }, Facing::Right);
    assert_eq!(walking.frames.len(), 8);
    assert!(walking.flip_x);
}

#[test]
fn frames_advance_with_wraparound() {
    assert_eq!(advance_frame(0, 8, true), 1);
    assert_eq!(advance_frame(6, 8, true), 7);
    assert_eq!(advance_frame(7, 8, true), 0);
    // A one-shot animation holds its last frame.
    assert_eq!(advance_frame(7, 8, false), 7);
    assert_eq!(advance_frame(0, 1, true), 0);
}
