use p2pg::collision::Hitbox;
use p2pg::map::{layer_spawnpoints, layer_to_collision, map_size, tilemap_aabb, MapObject, MapObjectShape};

#[test]
fn rect_objects_become_centered_blocks() {
    let objects = vec![MapObject { x: 10, y: 20, shape: MapObjectShape::Rect { width: 8, height: 6 } }];
    let blocks = layer_to_collision(100, &objects);
    assert_eq!(blocks.len(), 1);
    let b = &blocks[0];
    // Top-left (10, 20) in a 100-pixel-tall map flips to y = 79; the
    // block's center moves half the extent in and everything scales to
    // subunits.
    assert_eq!(b.x, 10 * 256 + 8 * 128);
    assert_eq!(b.y, 79 * 256 - 6 * 128);
    assert_eq!(
        b.hitbox,
        Hitbox::Rect { offset_x: 0, offset_y: 0, half_w: 8 * 128, half_h: 6 * 128 },
    );
}

#[test]
fn ellipses_collapse_to_their_width_circle() {
    let objects = vec![MapObject { x: 0, y: 0, shape: MapObjectShape::Ellipse { width: 10, height: 24 } }];
    let blocks = layer_to_collision(50, &objects);
    assert_eq!(blocks.len(), 1);
    let b = &blocks[0];
    assert_eq!(b.hitbox, Hitbox::Circle { offset_x: 0, offset_y: 0, radius: 10 * 128 });
    assert_eq!(b.x, 10 * 128);
    assert_eq!(b.y, 49 * 256 - 10 * 128);
}

#[test]
fn points_are_not_collision() {
    let objects = vec![
        MapObject { x: 5, y: 5, shape: MapObjectShape::Point },
        MapObject { x: 1, y: 1, shape: MapObjectShape::Rect { width: 2, height: 2 } },
        MapObject { x: 9, y: 9, shape: MapObjectShape::Point },
    ];
    let blocks = layer_to_collision(64, &objects);
    assert_eq!(blocks.len(), 1);
    let spawns = layer_spawnpoints(64, &objects);
    assert_eq!(spawns, vec![(5 * 256, (64 - 5) * 256), (9 * 256, (64 - 9) * 256)]);
}

#[test]
fn map_size_multiplies_tiles_out() {
    assert_eq!(map_size(16, 16, 50, 40), (800, 640));
    let (center, half) = tilemap_aabb((800, 640));
    assert_eq!(center, half);
    assert_eq!(center, (800 * 128, 640 * 128));
}
