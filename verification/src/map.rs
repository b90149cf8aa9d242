//! Turning map data into the static world.
//!
//! The map editor reports object layers in pixel coordinates with y
//! pointing down; the simulation lives in fixed-point subunits with y
//! pointing up. These functions perform that conversion for the two
//! layers the simulation consumes: the collision layer, whose rectangles
//! and circles become terrain blocks, and the spawn-point layer. Mesh
//! and texture generation are presentation and stay outside.

use vstd::prelude::*;

use crate::collision::Hitbox;
use crate::collision::SUBPIXELS;
use crate::sim::TerrainBlock;

verus! {

/// Map object coordinates and extents stay within this many pixels.
pub const MAP_PIXEL_BOUND: i64 = 0x1000;

/// The shape of one object on a map object layer, in pixels.
#[derive(Clone, Copy, Debug, PartialEq, Eq, Structural)]
pub enum MapObjectShape {
    Rect { width: i64, height: i64 },
    Ellipse { width: i64, height: i64 },
    Point,
}

/// One object of a map object layer: its top-left anchor in map pixels,
/// y pointing down, and its shape.
#[derive(Clone, Copy, Debug, PartialEq, Eq, Structural)]
pub struct MapObject {
    pub x: i64,
    pub y: i64,
    pub shape: MapObjectShape,
}

impl MapObject {
    /// Anchor and extents within the pixel bound.
    pub open spec fn wf(self) -> bool {
        &&& 0 <= self.x <= MAP_PIXEL_BOUND
        &&& 0 <= self.y <= MAP_PIXEL_BOUND
        &&& (match self.shape {
            MapObjectShape::Rect { width, height } => 0 < width <= MAP_PIXEL_BOUND && 0 < height
                <= MAP_PIXEL_BOUND,
            MapObjectShape::Ellipse { width, height } => 0 < width <= MAP_PIXEL_BOUND && 0 < height
                <= MAP_PIXEL_BOUND,
            MapObjectShape::Point => true,
        })
    }
}

/// The size of a tiled map in pixels: tiles times tile size.
pub fn map_size(tile_width: u32, tile_height: u32, width: u32, height: u32) -> (r: (u64, u64))
    ensures
        r.0 == tile_width * width,
        r.1 == tile_height * height,
{
    proof {
        assert(tile_width * width <= u32::MAX * u32::MAX && tile_height * height <= u32::MAX
            * u32::MAX) by (nonlinear_arith)
            requires
                tile_width <= u32::MAX,
                width <= u32::MAX,
                tile_height <= u32::MAX,
                height <= u32::MAX,
        ;
    }
    (tile_width as u64 * width as u64, tile_height as u64 * height as u64)
}

/// The axis-aligned bounds of a map: center and half extents in
/// subunits, both equal to half the map size.
pub fn tilemap_aabb(size: (u64, u64)) -> (r: ((i64, i64), (i64, i64)))
    requires
        size.0 <= MAP_PIXEL_BOUND,
        size.1 <= MAP_PIXEL_BOUND,
    ensures
        r.0 == r.1,
        r.0.0 == size.0 * (SUBPIXELS as u64) / 2,
        r.0.1 == size.1 * (SUBPIXELS as u64) / 2,
{
    let half = (size.0 as i64 * SUBPIXELS / 2, size.1 as i64 * SUBPIXELS / 2);
    (half, half)
}

/// The terrain block a collision-layer object denotes: `None` for a
/// point. The anchor is the object's top-left corner in map pixels; the
/// block's position is its center in subunits, y flipped to point up. A
/// non-circular ellipse collapses to the circle of its width, as the
/// map loader warns it will.
pub open spec fn spec_object_block(map_height: int, o: MapObject) -> Option<TerrainBlock> {
    let flipped = map_height - o.y - 1;
    match o.shape {
        MapObjectShape::Rect { width, height } => Some(
            TerrainBlock {
                hitbox: Hitbox::Rect {
                    offset_x: 0,
                    offset_y: 0,
                    half_w: (width * 128) as i64,
                    half_h: (height * 128) as i64,
                },
                x: (o.x * 256 + width * 128) as i64,
                y: (flipped * 256 - height * 128) as i64,
            },
        ),
        MapObjectShape::Ellipse { width, height } => Some(
            TerrainBlock {
                hitbox: Hitbox::Circle { offset_x: 0, offset_y: 0, radius: (width * 128) as i64 },
                x: (o.x * 256 + width * 128) as i64,
                y: (flipped * 256 - width * 128) as i64,
            },
        ),
        MapObjectShape::Point => None,
    }
}

/// The terrain blocks of a collision layer, in object order.
pub open spec fn spec_layer_to_collision(map_height: int, objects: Seq<MapObject>) -> Seq<
    TerrainBlock,
>
    decreases objects.len(),
{
    if objects.len() == 0 {
        Seq::empty()
    } else {
        let rest = spec_layer_to_collision(map_height, objects.drop_last());
        match spec_object_block(map_height, objects.last()) {
            Some(b) => rest.push(b),
            None => rest,
        }
    }
}

/// Convert a collision object layer into terrain blocks.
pub fn layer_to_collision(map_height: i64, objects: &Vec<MapObject>) -> (r: Vec<TerrainBlock>)
    requires
        0 < map_height <= MAP_PIXEL_BOUND,
        forall|i: int| 0 <= i < objects@.len() ==> (#[trigger] objects@[i]).wf(),
    ensures
        r@ == spec_layer_to_collision(map_height as int, objects@),
        forall|i: int| 0 <= i < r@.len() ==> (#[trigger] r@[i]).wf(),
{
    let mut blocks: Vec<TerrainBlock> = Vec::new();
    let n = objects.len();
    let mut i: usize = 0;
    while i < n
        invariant
            0 < map_height <= MAP_PIXEL_BOUND,
            forall|j: int| 0 <= j < objects@.len() ==> (#[trigger] objects@[j]).wf(),
            n == objects@.len(),
            i <= n,
            blocks@ == spec_layer_to_collision(map_height as int, objects@.take(i as int)),
            forall|j: int| 0 <= j < blocks@.len() ==> (#[trigger] blocks@[j]).wf(),
        decreases n - i,
    {
        let o = objects[i];
        proof {
            assert(objects@.take(i + 1 as int).drop_last() =~= objects@.take(i as int));
            assert(objects@.take(i + 1 as int).last() == objects@[i as int]);
        }
        let flipped = map_height - o.y - 1;
        match o.shape {
            MapObjectShape::Rect { width, height } => {
                blocks.push(
                    TerrainBlock {
                        hitbox: Hitbox::Rect {
                            offset_x: 0,
                            offset_y: 0,
                            half_w: width * 128,
                            half_h: height * 128,
                        },
                        x: o.x * 256 + width * 128,
                        y: flipped * 256 - height * 128,
                    },
                );
            },
            MapObjectShape::Ellipse { width, .. } => {
                blocks.push(
                    TerrainBlock {
                        hitbox: Hitbox::Circle { offset_x: 0, offset_y: 0, radius: width * 128 },
                        x: o.x * 256 + width * 128,
                        y: flipped * 256 - width * 128,
                    },
                );
            },
            MapObjectShape::Point => {},
        }
        i = i + 1;
    }
    proof {
        assert(objects@.take(n as int) =~= objects@);
    }
    blocks
}

/// The spawn points of a spawn-point layer, in object order: each point
/// object's position in subunits, y flipped to point up.
pub open spec fn spec_layer_spawnpoints(map_height: int, objects: Seq<MapObject>) -> Seq<
    (i64, i64),
>
    decreases objects.len(),
{
    if objects.len() == 0 {
        Seq::empty()
    } else {
        let rest = spec_layer_spawnpoints(map_height, objects.drop_last());
        let o = objects.last();
        match o.shape {
            MapObjectShape::Point => rest.push(
                ((o.x * 256) as i64, ((map_height - o.y) * 256) as i64),
            ),
            _ => rest,
        }
    }
}

/// Collect the spawn points of a spawn-point object layer.
pub fn layer_spawnpoints(map_height: i64, objects: &Vec<MapObject>) -> (r: Vec<(i64, i64)>)
    requires
        0 < map_height <= MAP_PIXEL_BOUND,
        forall|i: int| 0 <= i < objects@.len() ==> (#[trigger] objects@[i]).wf(),
    ensures
        r@ == spec_layer_spawnpoints(map_height as int, objects@),
        forall|i: int|
            0 <= i < r@.len() ==> -crate::sim::POS_LIMIT <= (#[trigger] r@[i]).0
                <= crate::sim::POS_LIMIT && -crate::sim::POS_LIMIT <= r@[i].1
                <= crate::sim::POS_LIMIT,
{
    let mut spawns: Vec<(i64, i64)> = Vec::new();
    let n = objects.len();
    let mut i: usize = 0;
    while i < n
        invariant
            0 < map_height <= MAP_PIXEL_BOUND,
            forall|j: int| 0 <= j < objects@.len() ==> (#[trigger] objects@[j]).wf(),
            n == objects@.len(),
            i <= n,
            spawns@ == spec_layer_spawnpoints(map_height as int, objects@.take(i as int)),
            forall|j: int|
                0 <= j < spawns@.len() ==> -crate::sim::POS_LIMIT <= (#[trigger] spawns@[j]).0
                    <= crate::sim::POS_LIMIT && -crate::sim::POS_LIMIT <= spawns@[j].1
                    <= crate::sim::POS_LIMIT,
        decreases n - i,
    {
        let o = objects[i];
        proof {
            assert(objects@.take(i + 1 as int).drop_last() =~= objects@.take(i as int));
            assert(objects@.take(i + 1 as int).last() == objects@[i as int]);
        }
        match o.shape {
            MapObjectShape::Point => {
                spawns.push((o.x * 256, (map_height - o.y) * 256));
            },
            _ => {},
        }
        i = i + 1;
    }
    proof {
        assert(objects@.take(n as int) =~= objects@);
    }
    spawns
}

} // verus!
