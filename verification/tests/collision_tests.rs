use p2pg::collision::{hitbox_collision, hitbox_intersects, Hitbox};
use sepax2d::aabb::AABB;
use sepax2d::circle::Circle;
use sepax2d::{sat_collision, sat_overlap};

fn rect(half_w: i64, half_h: i64) -> Hitbox {
    Hitbox::Rect { offset_x: 0, offset_y: 0, half_w, half_h }
}

fn circle(radius: i64) -> Hitbox {
    Hitbox::Circle { offset_x: 0, offset_y: 0, radius }
}

#[test]
fn rects_overlap_strictly() {
    let a = rect(100, 100);
    let b = rect(50, 50);
    assert!(hitbox_intersects((&a, (0, 0)), (&b, (140, 0))));
    // Touching edges do not overlap.
    assert!(!hitbox_intersects((&a, (0, 0)), (&b, (150, 0))));
    assert!(!hitbox_intersects((&a, (0, 0)), (&b, (200, 0))));
    assert!(hitbox_intersects((&a, (0, 0)), (&b, (0, 149))));
    assert!(!hitbox_intersects((&a, (0, 0)), (&b, (0, 150))));
}

#[test]
fn circle_against_rect() {
    let probe = rect(100, 100);
    let shape = circle(50);
    // Side contact: the circle's center sits right of the rect.
    assert!(hitbox_intersects((&probe, (0, 0)), (&shape, (149, 0))));
    assert!(!hitbox_intersects((&probe, (0, 0)), (&shape, (150, 0))));
    // Corner contact goes by euclidean distance: at (130, 140) the
    // corner gap is 30 and 40, five-squared times a hundred away.
    assert!(!hitbox_intersects((&probe, (0, 0)), (&shape, (130, 140))));
    assert!(hitbox_intersects((&probe, (0, 0)), (&shape, (129, 140))));
}

#[test]
fn pushes_resolve_along_the_least_penetration() {
    let body = rect(100, 100);
    let wall = rect(100, 100);
    // Overlapping from the left by 30: pushed back out to the left.
    let push = hitbox_collision((&body, (-170, 0)), (&wall, (0, 0)));
    assert_eq!(push, (-30, 0));
    // Deeper on x than on y: the shallower y axis wins.
    let push = hitbox_collision((&body, (-150, 180)), (&wall, (0, 0)));
    assert_eq!(push, (0, 20));
    // No overlap, no push.
    let push = hitbox_collision((&body, (300, 0)), (&wall, (0, 0)));
    assert_eq!(push, (0, 0));
}

/// The fixed-point overlap test agrees with sepax2d's separating-axis
/// test on a grid of rectangle pairs whose coordinates convert to f32
/// exactly.
#[test]
fn rect_overlap_matches_sepax2d() {
    let a = rect(120, 80);
    for x in (-300..300).step_by(7) {
        for y in (-250..250).step_by(11) {
            let b = rect(60, 90);
            let ours = hitbox_intersects((&a, (0, 0)), (&b, (x, y)));
            let left = AABB::new((-120.0, -80.0), 240.0, 160.0);
            let right = AABB::new((x as f32 - 60.0, y as f32 - 90.0), 120.0, 180.0);
            let theirs = sat_overlap(&left, &right);
            assert_eq!(ours, theirs, "disagreement at ({}, {})", x, y);
        }
    }
}

/// The fixed-point circle-against-rectangle test agrees with sepax2d
/// away from exact tangency.
#[test]
fn circle_overlap_matches_sepax2d() {
    let probe = rect(100, 100);
    for x in (-300i64..300).step_by(13) {
        for y in (-300i64..300).step_by(17) {
            let shape = circle(70);
            // Skip near-tangent placements, where sepax2d's float
            // rounding may legitimately differ from exact integers.
            let nx: i64 = x.clamp(-100, 100);
            let ny: i64 = y.clamp(-100, 100);
            let d2: i64 = (x - nx) * (x - nx) + (y - ny) * (y - ny);
            if (d2 - 70 * 70).abs() < 200 {
                continue;
            }
            let ours = hitbox_intersects((&probe, (0, 0)), (&shape, (x, y)));
            let left = AABB::new((-100.0, -100.0), 200.0, 200.0);
            let right = Circle::new((x as f32, y as f32), 70.0);
            let theirs = sat_overlap(&left, &right);
            assert_eq!(ours, theirs, "disagreement at ({}, {})", x, y);
        }
    }
}

/// The fixed-point resolution vector matches sepax2d's on overlapping
/// rectangle pairs.
#[test]
fn rect_push_matches_sepax2d() {
    let body = rect(100, 100);
    let wall = rect(100, 100);
    for x in (-190..190).step_by(9) {
        for y in (-190..190).step_by(13) {
            if x == 0 && y == 0 {
                continue;
            }
            let ours = hitbox_collision((&body, (x, y)), (&wall, (0, 0)));
            let rigid = AABB::new((-100.0, -100.0), 200.0, 200.0);
            let dynamic = AABB::new((x as f32 - 100.0, y as f32 - 100.0), 200.0, 200.0);
            let theirs = sat_collision(&rigid, &dynamic);
            assert_eq!(
                (ours.0 as f32, ours.1 as f32),
                theirs,
                "disagreement at ({}, {})",
                x,
                y
            );
        }
    }
}

/// Overlap does not care which shape probes which.
#[test]
fn overlap_is_symmetric() {
    let shapes = [rect(120, 80), rect(60, 90), circle(70), circle(45)];
    for a in shapes.iter() {
        for b in shapes.iter() {
            for x in (-260i64..260).step_by(23) {
                for y in (-260i64..260).step_by(29) {
                    assert_eq!(
                        hitbox_intersects((a, (0, 0)), (b, (x, y))),
                        hitbox_intersects((b, (x, y)), (a, (0, 0))),
                        "asymmetry at ({}, {})",
                        x,
                        y
                    );
                }
            }
        }
    }
}

#[test]
fn circles_overlap_strictly() {
    let a = circle(60);
    let b = circle(40);
    assert!(hitbox_intersects((&a, (0, 0)), (&b, (99, 0))));
    // Touching circles do not overlap.
    assert!(!hitbox_intersects((&a, (0, 0)), (&b, (100, 0))));
    assert!(!hitbox_intersects((&a, (0, 0)), (&b, (80, 80))));
    assert!(hitbox_intersects((&a, (0, 0)), (&b, (70, 70))));
}

/// A rectangle overlapping a circular block is pushed radially until
/// the pair separates.
#[test]
fn rect_is_pushed_out_of_circle() {
    let body = rect(1050, 1050);
    let block = circle(500);
    // The hull's right face reaches to 1050; the circle at 1400 spans
    // from 900: 350 of the 500 radius is covered, 150 remains.
    let push = hitbox_collision((&body, (0, 0)), (&block, (1400, 0)));
    assert_eq!(push, (-150, 0));
    assert!(!hitbox_intersects((&body, (-150, 0)), (&block, (1400, 0))));
    // No overlap, no push.
    let push = hitbox_collision((&body, (0, 0)), (&block, (1600, 0)));
    assert_eq!(push, (0, 0));
}

/// Every overlapping pairing separates when translated by its push,
/// and only overlapping pairings push at all.
#[test]
fn pushes_always_separate() {
    let shapes = [rect(100, 100), rect(40, 130), circle(70), circle(110)];
    for dynamic in shapes.iter() {
        for rigid in shapes.iter() {
            for x in (-260i64..260).step_by(19) {
                for y in (-260i64..260).step_by(17) {
                    let push = hitbox_collision((dynamic, (x, y)), (rigid, (0, 0)));
                    let overlapped = hitbox_intersects((dynamic, (x, y)), (rigid, (0, 0)));
                    assert_eq!(push != (0, 0), overlapped, "push/overlap at ({}, {})", x, y);
                    assert!(
                        !hitbox_intersects((dynamic, (x + push.0, y + push.1)), (rigid, (0, 0))),
                        "still overlapping at ({}, {}) after {:?}",
                        x,
                        y,
                        push
                    );
                }
            }
        }
    }
}

/// Coincident circle centers resolve deterministically along +x.
#[test]
fn coincident_circles_push_apart() {
    let a = circle(60);
    let b = circle(40);
    let push = hitbox_collision((&a, (10, 10)), (&b, (10, 10)));
    assert_eq!(push, (100, 0));
    assert!(!hitbox_intersects((&a, (110, 10)), (&b, (10, 10))));
}

/// A circle whose center sits inside a rectangle is pushed out along
/// the axis of least penetration.
#[test]
fn embedded_circle_leaves_along_the_short_axis() {
    let body = circle(50);
    let wall = rect(200, 80);
    let push = hitbox_collision((&body, (30, 40)), (&wall, (0, 0)));
    // The y penetration (80 + 50 - 40) undercuts x (200 + 50 - 30).
    assert_eq!(push, (0, 90));
    assert!(!hitbox_intersects((&body, (30, 130)), (&wall, (0, 0))));
}

#[test]
fn with_transform_translates_offsets() {
    let h = Hitbox::Rect { offset_x: 10, offset_y: -20, half_w: 5, half_h: 6 };
    let moved = h.with_transform((100, 200));
    assert_eq!(moved, Hitbox::Rect { offset_x: 110, offset_y: 180, half_w: 5, half_h: 6 });
}
