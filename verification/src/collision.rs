//! Hitboxes and collision queries for the simulation step.
//!
//! Shapes live in fixed-point subunits (`SUBPIXELS` per pixel) relative
//! to entity positions. The separating-axis tests run on integers only —
//! two peers must resolve every contact bit-identically, and floating
//! point is exactly the kind of divergence this engine exists to avoid.
//! Every pairing of the two shapes is supported: the overlap test is
//! total and symmetric, and the resolution push separates any
//! overlapping pair (`lemma_collision_separates`).

use vstd::prelude::*;

verus! {

/// Fixed-point subunits per pixel.
pub const SUBPIXELS: i64 = 256;

/// Entity positions stay within this many subunits of the origin.
pub const GEOM_BOUND: i64 = 0x40_0000;

/// Hitbox offsets and extents stay within this many subunits.
pub const SHAPE_BOUND: i64 = 0x10_0000;

/// A convex hitbox relative to its entity's position, in subunits.
#[derive(Clone, Copy, Debug, PartialEq, Eq, Structural)]
pub enum Hitbox {
    Rect { offset_x: i64, offset_y: i64, half_w: i64, half_h: i64 },
    Circle { offset_x: i64, offset_y: i64, radius: i64 },
}

impl Hitbox {
    /// Offsets in bounds and extents positive and in bounds.
    pub open spec fn wf(self) -> bool {
        match self {
            Hitbox::Rect { offset_x, offset_y, half_w, half_h } => {
                &&& -SHAPE_BOUND <= offset_x <= SHAPE_BOUND
                &&& -SHAPE_BOUND <= offset_y <= SHAPE_BOUND
                &&& 0 < half_w <= SHAPE_BOUND
                &&& 0 < half_h <= SHAPE_BOUND
            },
            Hitbox::Circle { offset_x, offset_y, radius } => {
                &&& -SHAPE_BOUND <= offset_x <= SHAPE_BOUND
                &&& -SHAPE_BOUND <= offset_y <= SHAPE_BOUND
                &&& 0 < radius <= SHAPE_BOUND
            },
        }
    }

    /// The hitbox carried to an entity position: the offsets translate.
    pub open spec fn spec_with_transform(self, pos: (i64, i64)) -> Hitbox {
        match self {
            Hitbox::Rect { offset_x, offset_y, half_w, half_h } => Hitbox::Rect {
                offset_x: (offset_x + pos.0) as i64,
                offset_y: (offset_y + pos.1) as i64,
                half_w,
                half_h,
            },
            Hitbox::Circle { offset_x, offset_y, radius } => Hitbox::Circle {
                offset_x: (offset_x + pos.0) as i64,
                offset_y: (offset_y + pos.1) as i64,
                radius,
            },
        }
    }

    /// Carry the hitbox to an entity position.
    pub fn with_transform(&self, pos: (i64, i64)) -> (r: Hitbox)
        requires
            self.wf(),
            -GEOM_BOUND <= pos.0 <= GEOM_BOUND,
            -GEOM_BOUND <= pos.1 <= GEOM_BOUND,
        ensures
            r == self.spec_with_transform(pos),
    {
        match *self {
            Hitbox::Rect { offset_x, offset_y, half_w, half_h } => Hitbox::Rect {
                offset_x: offset_x + pos.0,
                offset_y: offset_y + pos.1,
                half_w,
                half_h,
            },
            Hitbox::Circle { offset_x, offset_y, radius } => Hitbox::Circle {
                offset_x: offset_x + pos.0,
                offset_y: offset_y + pos.1,
                radius,
            },
        }
    }
}

/// The wall sensors around a player: four thin rectangles just outside
/// the player's hull.
#[derive(Clone, Copy, Debug, PartialEq, Eq, Structural)]
pub struct WallSensors {
    pub up: Hitbox,
    pub down: Hitbox,
    pub left: Hitbox,
    pub right: Hitbox,
}

impl WallSensors {
    /// All four sensors are well-formed.
    pub open spec fn wf(self) -> bool {
        self.up.wf() && self.down.wf() && self.left.wf() && self.right.wf()
    }
}

/// The absolute value of a coordinate difference.
pub open spec fn spec_abs(v: int) -> int {
    if v < 0 {
        -v
    } else {
        v
    }
}

/// The point of the interval `[lo, hi]` nearest to `v`.
pub open spec fn spec_clamp(v: int, lo: int, hi: int) -> int {
    if v < lo {
        lo
    } else if v > hi {
        hi
    } else {
        v
    }
}

/// Two axis-aligned rectangles, given as center and half extents,
/// overlap exactly when their projections overlap strictly on both
/// axes. Rectangles that merely touch do not overlap.
pub open spec fn spec_rects_overlap(
    acx: int,
    acy: int,
    ahw: int,
    ahh: int,
    bcx: int,
    bcy: int,
    bhw: int,
    bhh: int,
) -> bool {
    spec_abs(acx - bcx) < ahw + bhw && spec_abs(acy - bcy) < ahh + bhh
}

/// A rectangle (center and half extents) and a circle (center and
/// radius) overlap exactly when the point of the rectangle nearest the
/// circle's center lies strictly inside the circle.
pub open spec fn spec_rect_circle_overlap(
    rcx: int,
    rcy: int,
    rhw: int,
    rhh: int,
    cx: int,
    cy: int,
    cr: int,
) -> bool {
    let nx = spec_clamp(cx, rcx - rhw, rcx + rhw);
    let ny = spec_clamp(cy, rcy - rhh, rcy + rhh);
    (cx - nx) * (cx - nx) + (cy - ny) * (cy - ny) < cr * cr
}

/// Two circles overlap exactly when their centers are strictly closer
/// than the sum of their radii.
pub open spec fn spec_circles_overlap(
    acx: int,
    acy: int,
    ar: int,
    bcx: int,
    bcy: int,
    br: int,
) -> bool {
    (acx - bcx) * (acx - bcx) + (acy - bcy) * (acy - bcy) < (ar + br) * (ar + br)
}

/// The integer square root: the greatest `r` with `r * r <= n`.
pub open spec fn spec_isqrt(n: int) -> int {
    choose|r: int| 0 <= r && #[trigger] (r * r) <= n < (r + 1) * (r + 1)
}

/// Any two integer square roots of the same value agree, so the chosen
/// one is the computed one.
pub proof fn lemma_isqrt_unique(n: int, r: int)
    requires
        0 <= r,
        r * r <= n,
        n < (r + 1) * (r + 1),
    ensures
        spec_isqrt(n) == r,
{
    assert(exists|q: int| 0 <= q && #[trigger] (q * q) <= n < (q + 1) * (q + 1)) by {
        assert(0 <= r && r * r <= n < (r + 1) * (r + 1));
    }
    let q = spec_isqrt(n);
    if q < r {
        assert((q + 1) * (q + 1) <= r * r) by (nonlinear_arith)
            requires
                0 <= q < r,
        ;
    }
    if r < q {
        assert((r + 1) * (r + 1) <= q * q) by (nonlinear_arith)
            requires
                0 <= r < q,
        ;
    }
}

/// Every non-negative value has an integer square root.
pub proof fn lemma_isqrt_exists(n: int)
    requires
        0 <= n,
    ensures
        spec_isqrt(n) * spec_isqrt(n) <= n < (spec_isqrt(n) + 1) * (spec_isqrt(n) + 1),
        spec_isqrt(n) >= 0,
    decreases n,
{
    if n == 0 {
        assert(exists|q: int| 0 <= q && #[trigger] (q * q) <= n < (q + 1) * (q + 1)) by {
            assert(0 * 0 <= n < (0 + 1) * (0 + 1)) by (nonlinear_arith)
                requires
                    n == 0,
            ;
        }
    } else {
        lemma_isqrt_exists(n - 1);
        let r = spec_isqrt(n - 1);
        if (r + 1) * (r + 1) <= n {
            assert(n - 1 < (r + 1) * (r + 1));
            assert(n < (r + 2) * (r + 2)) by (nonlinear_arith)
                requires
                    0 <= r,
                    n <= (r + 1) * (r + 1),
            ;
            assert(exists|q: int| 0 <= q && #[trigger] (q * q) <= n < (q + 1) * (q + 1)) by {
                assert(0 <= r + 1 && (r + 1) * (r + 1) <= n < (r + 2) * (r + 2));
            }
        } else {
            assert(exists|q: int| 0 <= q && #[trigger] (q * q) <= n < (q + 1) * (q + 1)) by {
                assert(0 <= r && r * r <= n < (r + 1) * (r + 1));
            }
        }
    }
}

/// An integer square root of a value at least a square is at least the
/// root of that square.
pub proof fn lemma_isqrt_at_least(n: int, c: int)
    requires
        0 <= c,
        c * c <= n,
    ensures
        spec_isqrt(n) >= c,
        spec_isqrt(n) * spec_isqrt(n) <= n < (spec_isqrt(n) + 1) * (spec_isqrt(n) + 1),
{
    lemma_isqrt_exists(n);
    let r = spec_isqrt(n);
    if r < c {
        assert((r + 1) * (r + 1) <= c * c) by (nonlinear_arith)
            requires
                0 <= r,
                r < c,
        ;
    }
}

/// The integer square root, by binary search.
pub fn isqrt(n: u64) -> (r: u64)
    requires
        n < 0x4000_0000_0000_0000,
    ensures
        r * r <= n < (r + 1) * (r + 1),
        r == spec_isqrt(n as int),
        r <= 0x8000_0000,
{
    let mut lo: u64 = 0;
    let mut hi: u64 = 0x8000_0000;
    proof {
        assert(n < 0x8000_0000u64 * 0x8000_0000u64) by (nonlinear_arith)
            requires
                n < 0x4000_0000_0000_0000,
        ;
    }
    while lo + 1 < hi
        invariant
            lo < hi <= 0x8000_0000,
            lo * lo <= n,
            n < hi * hi,
        decreases hi - lo,
    {
        let mid = lo + (hi - lo) / 2;
        proof {
            assert(mid * mid <= 0x8000_0000u64 * 0x8000_0000u64) by (nonlinear_arith)
                requires
                    mid <= 0x8000_0000u64,
            ;
        }
        if mid * mid <= n {
            lo = mid;
        } else {
            hi = mid;
        }
    }
    proof {
        lemma_isqrt_unique(n as int, lo as int);
    }
    lo
}

/// Division rounding away from zero: the magnitude of the quotient is
/// rounded up.
pub open spec fn spec_div_away(num: int, den: int) -> int {
    if num >= 0 {
        (num + den - 1) / den
    } else {
        -((-num + den - 1) / den)
    }
}

/// Division rounding away from zero.
fn div_away(num: i64, den: i64) -> (r: i64)
    requires
        0 < den <= 0x100_0000,
        -0x1_0000_0000_0000 <= num <= 0x1_0000_0000_0000,
    ensures
        r == spec_div_away(num as int, den as int),
{
    if num >= 0 {
        (num + den - 1) / den
    } else {
        -((-num + den - 1) / den)
    }
}

/// The away-rounded quotient of a scaled component: aligned in sign
/// with the component, at most the scale in magnitude when the
/// component is at most the denominator, and at least the exact
/// quotient times the denominator.
proof fn lemma_div_away_scaled(v: int, m: int, den: int)
    requires
        0 < den,
        0 < m,
        spec_abs(v) <= den,
    ensures
        ({
            let p = spec_div_away(v * m, den);
            &&& v >= 0 ==> 0 <= p <= m
            &&& v <= 0 ==> -m <= p <= 0
            &&& den * spec_abs(p) >= spec_abs(v) * m
        }),
{
    if v >= 0 {
        assert(0 <= v * m <= den * m) by (nonlinear_arith)
            requires
                0 <= v <= den,
                0 < m,
        ;
        let a = v * m;
        let p = (a + den - 1) / den;
        vstd::arithmetic::div_mod::lemma_div_pos_is_pos(a + den - 1, den);
        vstd::arithmetic::div_mod::lemma_fundamental_div_mod(a + den - 1, den);
        vstd::arithmetic::div_mod::lemma_mod_bound(a + den - 1, den);
        assert(den * p >= a);
        assert(a + den - 1 <= den * (m + 1) - 1) by (nonlinear_arith)
            requires
                a <= den * m,
        ;
        vstd::arithmetic::div_mod::lemma_div_is_ordered(a + den - 1, den * (m + 1) - 1, den);
        assert((den * (m + 1) - 1) / den == m) by (nonlinear_arith)
            requires
                0 < den,
                0 < m,
        ;
        if v == 0 {
            assert(a == 0) by (nonlinear_arith)
                requires
                    a == v * m,
                    v == 0,
            ;
            vstd::arithmetic::div_mod::lemma_basic_div(den - 1, den);
        }
    } else {
        assert(0 < -v * m <= den * m) by (nonlinear_arith)
            requires
                0 < -v <= den,
                0 < m,
        ;
        let b = -v * m;
        let q = (b + den - 1) / den;
        vstd::arithmetic::div_mod::lemma_div_pos_is_pos(b + den - 1, den);
        vstd::arithmetic::div_mod::lemma_fundamental_div_mod(b + den - 1, den);
        vstd::arithmetic::div_mod::lemma_mod_bound(b + den - 1, den);
        assert(den * q >= b);
        assert(b + den - 1 <= den * (m + 1) - 1) by (nonlinear_arith)
            requires
                b <= den * m,
        ;
        vstd::arithmetic::div_mod::lemma_div_is_ordered(b + den - 1, den * (m + 1) - 1, den);
        assert((den * (m + 1) - 1) / den == m) by (nonlinear_arith)
            requires
                0 < den,
                0 < m,
        ;
        assert(spec_div_away(v * m, den) == -q) by {
            assert(v * m == -b) by (nonlinear_arith)
                requires
                    b == -v * m,
            ;
        }
    }
}

/// The radial separation push for a penetration vector `v` of squared
/// length below `reach * reach`: each component scaled by
/// `(reach - |v|) / |v|`, rounded away from zero so the push never
/// falls short.
pub open spec fn spec_radial_push(vx: int, vy: int, reach: int) -> (int, int) {
    let dist = spec_isqrt(vx * vx + vy * vy);
    let m = reach - dist;
    (spec_div_away(vx * m, dist), spec_div_away(vy * m, dist))
}

/// The radial push points with its vector, never exceeds the reach per
/// component, and carries the vector to squared length at least
/// `reach * reach`.
pub proof fn lemma_radial_push_props(vx: int, vy: int, reach: int)
    requires
        0 < vx * vx + vy * vy,
        vx * vx + vy * vy < reach * reach,
        0 < reach,
    ensures
        ({
            let dist = spec_isqrt(vx * vx + vy * vy);
            let p = spec_radial_push(vx, vy, reach);
            &&& 0 < dist < reach
            &&& (vx >= 0 ==> 0 <= p.0 <= reach) && (vx <= 0 ==> -reach <= p.0 <= 0)
            &&& (vy >= 0 ==> 0 <= p.1 <= reach) && (vy <= 0 ==> -reach <= p.1 <= 0)
            &&& (vx == 0 ==> p.0 == 0) && (vy == 0 ==> p.1 == 0)
            &&& (vx + p.0) * (vx + p.0) + (vy + p.1) * (vy + p.1) >= reach * reach
        }),
{
    let d2 = vx * vx + vy * vy;
    lemma_isqrt_exists(d2);
    let dist = spec_isqrt(d2);
    assert(dist >= 1) by {
        if dist == 0 {
            assert(d2 < (dist + 1) * (dist + 1));
            assert((dist + 1) * (dist + 1) == 1) by (nonlinear_arith)
                requires
                    dist == 0,
            ;
        }
    }
    assert(dist < reach) by (nonlinear_arith)
        requires
            dist * dist <= d2,
            d2 < reach * reach,
            dist >= 0,
            reach > 0,
    ;
    let m = reach - dist;
    assert(vx * vx <= d2 && vy * vy <= d2) by (nonlinear_arith)
        requires
            d2 == vx * vx + vy * vy,
    ;
    assert(spec_abs(vx) <= dist && spec_abs(vy) <= dist) by (nonlinear_arith)
        requires
            vx * vx <= d2,
            vy * vy <= d2,
            d2 < (dist + 1) * (dist + 1),
            dist >= 0,
    ;
    lemma_div_away_scaled(vx, m, dist);
    lemma_div_away_scaled(vy, m, dist);
    let px = spec_div_away(vx * m, dist);
    let py = spec_div_away(vy * m, dist);
    assert(vx == 0 ==> px == 0 && vy == 0 ==> py == 0);
    let avx = spec_abs(vx);
    let apx = spec_abs(px);
    let avy = spec_abs(vy);
    let apy = spec_abs(py);
    let wx = vx + px;
    let wy = vy + py;
    assert(spec_abs(wx) == avx + apx && spec_abs(wy) == avy + apy);
    assert(spec_abs(wx) * spec_abs(wx) == wx * wx) by {
        if wx < 0 {
            assert((-wx) * (-wx) == wx * wx) by (nonlinear_arith);
        }
    }
    assert(spec_abs(wy) * spec_abs(wy) == wy * wy) by {
        if wy < 0 {
            assert((-wy) * (-wy) == wy * wy) by (nonlinear_arith);
        }
    }
    assert(avx * avx == vx * vx) by {
        if vx < 0 {
            assert((-vx) * (-vx) == vx * vx) by (nonlinear_arith);
        }
    }
    assert(avy * avy == vy * vy) by {
        if vy < 0 {
            assert((-vy) * (-vy) == vy * vy) by (nonlinear_arith);
        }
    }
    assert(dist * spec_abs(wx) >= reach * avx) by (nonlinear_arith)
        requires
            spec_abs(wx) == avx + apx,
            dist * apx >= avx * m,
            reach == dist + m,
            avx >= 0,
            apx >= 0,
            dist > 0,
    ;
    assert(dist * spec_abs(wy) >= reach * avy) by (nonlinear_arith)
        requires
            spec_abs(wy) == avy + apy,
            dist * apy >= avy * m,
            reach == dist + m,
            avy >= 0,
            apy >= 0,
            dist > 0,
    ;
    assert((dist * dist) * (wx * wx) >= (reach * reach) * (avx * avx)) by (nonlinear_arith)
        requires
            dist * spec_abs(wx) >= reach * avx,
            reach * avx >= 0,
            spec_abs(wx) * spec_abs(wx) == wx * wx,
            spec_abs(wx) >= 0,
            avx >= 0,
            dist >= 0,
            reach >= 0,
    ;
    assert((dist * dist) * (wy * wy) >= (reach * reach) * (avy * avy)) by (nonlinear_arith)
        requires
            dist * spec_abs(wy) >= reach * avy,
            reach * avy >= 0,
            spec_abs(wy) * spec_abs(wy) == wy * wy,
            spec_abs(wy) >= 0,
            avy >= 0,
            dist >= 0,
            reach >= 0,
    ;
    assert((dist * dist) * (wx * wx + wy * wy) >= (reach * reach) * d2) by (nonlinear_arith)
        requires
            (dist * dist) * (wx * wx) >= (reach * reach) * (vx * vx),
            (dist * dist) * (wy * wy) >= (reach * reach) * (vy * vy),
            d2 == vx * vx + vy * vy,
    ;
    assert((reach * reach) * d2 >= (reach * reach) * (dist * dist)) by (nonlinear_arith)
        requires
            d2 >= dist * dist,
            reach >= 0,
    ;
    assert(wx * wx + wy * wy >= reach * reach) by (nonlinear_arith)
        requires
            (dist * dist) * (wx * wx + wy * wy) >= (reach * reach) * (dist * dist),
            dist >= 1,
    ;
}

/// The translation that moves a dynamic rectangle out of a rigid one:
/// zero when they do not overlap, else the push along the axis of least
/// penetration, away from the rigid center. A centered tie pushes in
/// the positive direction; equal penetrations resolve along x.
pub open spec fn spec_rects_push(
    rcx: int,
    rcy: int,
    rhw: int,
    rhh: int,
    dcx: int,
    dcy: int,
    dhw: int,
    dhh: int,
) -> (int, int) {
    let dx = dcx - rcx;
    let dy = dcy - rcy;
    let px = rhw + dhw - spec_abs(dx);
    let py = rhh + dhh - spec_abs(dy);
    if px <= 0 || py <= 0 {
        (0, 0)
    } else if px <= py {
        (if dx >= 0 {
            px
        } else {
            -px
        }, 0)
    } else {
        (0, if dy >= 0 {
            py
        } else {
            -py
        })
    }
}

/// The translation that moves a dynamic rectangle out of a rigid
/// circle: zero when they do not overlap; radially away from the
/// circle's center when that center lies outside the rectangle; along
/// the axis of least penetration when the center is inside, a tie
/// resolving along x and toward positive.
pub open spec fn spec_rect_circle_push(
    dcx: int,
    dcy: int,
    dhw: int,
    dhh: int,
    ccx: int,
    ccy: int,
    cr: int,
) -> (int, int) {
    let nx = spec_clamp(ccx, dcx - dhw, dcx + dhw);
    let ny = spec_clamp(ccy, dcy - dhh, dcy + dhh);
    let ux = nx - ccx;
    let uy = ny - ccy;
    let d2 = ux * ux + uy * uy;
    if d2 >= cr * cr {
        (0, 0)
    } else if d2 > 0 {
        spec_radial_push(ux, uy, cr)
    } else {
        let dx = dcx - ccx;
        let dy = dcy - ccy;
        let px = dhw + cr - spec_abs(dx);
        let py = dhh + cr - spec_abs(dy);
        if px <= py {
            (if dx >= 0 {
                px
            } else {
                -px
            }, 0)
        } else {
            (0, if dy >= 0 {
                py
            } else {
                -py
            })
        }
    }
}

/// The translation that moves a dynamic circle out of a rigid
/// rectangle: the mirror of the rectangle-out-of-circle push, moving
/// the circle's center radially away from the rectangle's nearest
/// point, or out along the axis of least penetration when the center
/// is inside the rectangle.
pub open spec fn spec_circle_rect_push(
    ccx: int,
    ccy: int,
    cr: int,
    rcx: int,
    rcy: int,
    rhw: int,
    rhh: int,
) -> (int, int) {
    let nx = spec_clamp(ccx, rcx - rhw, rcx + rhw);
    let ny = spec_clamp(ccy, rcy - rhh, rcy + rhh);
    let vx = ccx - nx;
    let vy = ccy - ny;
    let d2 = vx * vx + vy * vy;
    if d2 >= cr * cr {
        (0, 0)
    } else if d2 > 0 {
        spec_radial_push(vx, vy, cr)
    } else {
        let dx = ccx - rcx;
        let dy = ccy - rcy;
        let px = rhw + cr - spec_abs(dx);
        let py = rhh + cr - spec_abs(dy);
        if px <= py {
            (if dx >= 0 {
                px
            } else {
                -px
            }, 0)
        } else {
            (0, if dy >= 0 {
                py
            } else {
                -py
            })
        }
    }
}

/// The translation that moves a dynamic circle out of a rigid circle:
/// radially apart; coincident centers push in the positive x
/// direction by the combined radius.
pub open spec fn spec_circles_push(
    acx: int,
    acy: int,
    ar: int,
    bcx: int,
    bcy: int,
    br: int,
) -> (int, int) {
    let vx = acx - bcx;
    let vy = acy - bcy;
    let d2 = vx * vx + vy * vy;
    let reach = ar + br;
    if d2 >= reach * reach {
        (0, 0)
    } else if d2 > 0 {
        spec_radial_push(vx, vy, reach)
    } else {
        (reach, 0)
    }
}

/// Whether two transformed hitboxes intersect, over every pairing of
/// the two shapes. The test is symmetric in its two shapes
/// (`lemma_intersects_symmetric`).
pub open spec fn spec_hitbox_intersects(
    a: Hitbox,
    apos: (i64, i64),
    b: Hitbox,
    bpos: (i64, i64),
) -> bool {
    let at = a.spec_with_transform(apos);
    let bt = b.spec_with_transform(bpos);
    match (at, bt) {
        (
            Hitbox::Rect { offset_x: ax, offset_y: ay, half_w: aw, half_h: ah },
            Hitbox::Rect { offset_x: bx, offset_y: by, half_w: bw, half_h: bh },
        ) => spec_rects_overlap(ax as int, ay as int, aw as int, ah as int, bx as int, by as int, bw as int, bh as int),
        (
            Hitbox::Rect { offset_x: ax, offset_y: ay, half_w: aw, half_h: ah },
            Hitbox::Circle { offset_x: cx, offset_y: cy, radius: cr },
        ) => spec_rect_circle_overlap(ax as int, ay as int, aw as int, ah as int, cx as int, cy as int, cr as int),
        (
            Hitbox::Circle { offset_x: cx, offset_y: cy, radius: cr },
            Hitbox::Rect { offset_x: bx, offset_y: by, half_w: bw, half_h: bh },
        ) => spec_rect_circle_overlap(bx as int, by as int, bw as int, bh as int, cx as int, cy as int, cr as int),
        (
            Hitbox::Circle { offset_x: ax, offset_y: ay, radius: ar },
            Hitbox::Circle { offset_x: bx, offset_y: by, radius: br },
        ) => spec_circles_overlap(ax as int, ay as int, ar as int, bx as int, by as int, br as int),
    }
}

/// Check whether two transformed hitboxes intersect.
pub fn hitbox_intersects(a: (&Hitbox, (i64, i64)), b: (&Hitbox, (i64, i64))) -> (r: bool)
    requires
        a.0.wf(),
        b.0.wf(),
        -GEOM_BOUND <= a.1.0 <= GEOM_BOUND,
        -GEOM_BOUND <= a.1.1 <= GEOM_BOUND,
        -GEOM_BOUND <= b.1.0 <= GEOM_BOUND,
        -GEOM_BOUND <= b.1.1 <= GEOM_BOUND,
    ensures
        r == spec_hitbox_intersects(*a.0, a.1, *b.0, b.1),
{
    let at = a.0.with_transform(a.1);
    let bt = b.0.with_transform(b.1);
    match at {
        Hitbox::Rect { offset_x: ax, offset_y: ay, half_w: aw, half_h: ah } => {
            match bt {
                Hitbox::Rect { offset_x: bx, offset_y: by, half_w: bw, half_h: bh } => {
                    rects_overlap(ax, ay, aw, ah, bx, by, bw, bh)
                },
                Hitbox::Circle { offset_x: cx, offset_y: cy, radius: cr } => {
                    rect_circle_overlap(ax, ay, aw, ah, cx, cy, cr)
                },
            }
        },
        Hitbox::Circle { offset_x: cx, offset_y: cy, radius: cr } => {
            match bt {
                Hitbox::Rect { offset_x: bx, offset_y: by, half_w: bw, half_h: bh } => {
                    rect_circle_overlap(bx, by, bw, bh, cx, cy, cr)
                },
                Hitbox::Circle { offset_x: bx, offset_y: by, radius: br } => {
                    proof {
                        lemma_square_bound((cx - bx) as int);
                        lemma_square_bound((cy - by) as int);
                        lemma_square_bound((cr + br) as int);
                    }
                    (cx - bx) * (cx - bx) + (cy - by) * (cy - by) < (cr + br) * (cr + br)
                },
            }
        },
    }
}

/// The strict overlap test for two transformed rectangles.
fn rects_overlap(ax: i64, ay: i64, aw: i64, ah: i64, bx: i64, by: i64, bw: i64, bh: i64) -> (r:
    bool)
    requires
        -0x100_0000 <= ax <= 0x100_0000,
        -0x100_0000 <= ay <= 0x100_0000,
        0 < aw <= SHAPE_BOUND,
        0 < ah <= SHAPE_BOUND,
        -0x100_0000 <= bx <= 0x100_0000,
        -0x100_0000 <= by <= 0x100_0000,
        0 < bw <= SHAPE_BOUND,
        0 < bh <= SHAPE_BOUND,
    ensures
        r == spec_rects_overlap(ax as int, ay as int, aw as int, ah as int, bx as int, by as int, bw as int, bh as int),
{
    let ddx = abs_i64(ax - bx);
    let ddy = abs_i64(ay - by);
    ddx < aw + bw && ddy < ah + bh
}

/// The strict overlap test for a transformed rectangle and circle.
fn rect_circle_overlap(rx: i64, ry: i64, rw: i64, rh: i64, cx: i64, cy: i64, cr: i64) -> (r: bool)
    requires
        -0x100_0000 <= rx <= 0x100_0000,
        -0x100_0000 <= ry <= 0x100_0000,
        0 < rw <= SHAPE_BOUND,
        0 < rh <= SHAPE_BOUND,
        -0x100_0000 <= cx <= 0x100_0000,
        -0x100_0000 <= cy <= 0x100_0000,
        0 < cr <= SHAPE_BOUND,
    ensures
        r == spec_rect_circle_overlap(rx as int, ry as int, rw as int, rh as int, cx as int, cy as int, cr as int),
{
    let nx = clamp_i64(cx, rx - rw, rx + rw);
    let ny = clamp_i64(cy, ry - rh, ry + rh);
    let ex = cx - nx;
    let ey = cy - ny;
    proof {
        lemma_square_bound(ex as int);
        lemma_square_bound(ey as int);
        lemma_square_bound(cr as int);
    }
    ex * ex + ey * ey < cr * cr
}

/// The translation required to shift the dynamic body out of the rigid
/// body, for every pairing of the two shapes. The zero vector exactly
/// when the pair does not overlap, and a separating translation
/// otherwise (`lemma_collision_separates`).
pub open spec fn spec_hitbox_collision(
    dynamic: Hitbox,
    dpos: (i64, i64),
    rigid: Hitbox,
    rpos: (i64, i64),
) -> (int, int) {
    let dt = dynamic.spec_with_transform(dpos);
    let rt = rigid.spec_with_transform(rpos);
    match (dt, rt) {
        (
            Hitbox::Rect { offset_x: dx, offset_y: dy, half_w: dw, half_h: dh },
            Hitbox::Rect { offset_x: rx, offset_y: ry, half_w: rw, half_h: rh },
        ) => spec_rects_push(rx as int, ry as int, rw as int, rh as int, dx as int, dy as int, dw as int, dh as int),
        (
            Hitbox::Rect { offset_x: dx, offset_y: dy, half_w: dw, half_h: dh },
            Hitbox::Circle { offset_x: cx, offset_y: cy, radius: cr },
        ) => spec_rect_circle_push(dx as int, dy as int, dw as int, dh as int, cx as int, cy as int, cr as int),
        (
            Hitbox::Circle { offset_x: cx, offset_y: cy, radius: cr },
            Hitbox::Rect { offset_x: rx, offset_y: ry, half_w: rw, half_h: rh },
        ) => spec_circle_rect_push(cx as int, cy as int, cr as int, rx as int, ry as int, rw as int, rh as int),
        (
            Hitbox::Circle { offset_x: ax, offset_y: ay, radius: ar },
            Hitbox::Circle { offset_x: bx, offset_y: by, radius: br },
        ) => spec_circles_push(ax as int, ay as int, ar as int, bx as int, by as int, br as int),
    }
}

/// The translation required to shift the dynamic body out of the rigid
/// body. Rectangles resolve along the axis of least penetration;
/// circles resolve radially.
pub fn hitbox_collision(dynamic: (&Hitbox, (i64, i64)), rigid: (&Hitbox, (i64, i64))) -> (push: (
    i64,
    i64,
))
    requires
        dynamic.0.wf(),
        rigid.0.wf(),
        -GEOM_BOUND <= dynamic.1.0 <= GEOM_BOUND,
        -GEOM_BOUND <= dynamic.1.1 <= GEOM_BOUND,
        -GEOM_BOUND <= rigid.1.0 <= GEOM_BOUND,
        -GEOM_BOUND <= rigid.1.1 <= GEOM_BOUND,
    ensures
        (push.0 as int, push.1 as int) == spec_hitbox_collision(*dynamic.0, dynamic.1, *rigid.0, rigid.1),
        -4 * SHAPE_BOUND <= push.0 <= 4 * SHAPE_BOUND,
        -4 * SHAPE_BOUND <= push.1 <= 4 * SHAPE_BOUND,
{
    let dt = dynamic.0.with_transform(dynamic.1);
    let rt = rigid.0.with_transform(rigid.1);
    match dt {
        Hitbox::Rect { offset_x: dcx, offset_y: dcy, half_w: dhw, half_h: dhh } => {
            match rt {
                Hitbox::Rect { offset_x: rcx, offset_y: rcy, half_w: rhw, half_h: rhh } => {
                    let dx = dcx - rcx;
                    let dy = dcy - rcy;
                    let px = rhw + dhw - abs_i64(dx);
                    let py = rhh + dhh - abs_i64(dy);
                    if px <= 0 || py <= 0 {
                        (0, 0)
                    } else if px <= py {
                        (if dx >= 0 {
                            px
                        } else {
                            -px
                        }, 0)
                    } else {
                        (0, if dy >= 0 {
                            py
                        } else {
                            -py
                        })
                    }
                },
                Hitbox::Circle { offset_x: ccx, offset_y: ccy, radius: cr } => {
                    let nx = clamp_i64(ccx, dcx - dhw, dcx + dhw);
                    let ny = clamp_i64(ccy, dcy - dhh, dcy + dhh);
                    circle_side_push(nx - ccx, ny - ccy, cr, dcx - ccx, dcy - ccy, dhw, dhh)
                },
            }
        },
        Hitbox::Circle { offset_x: ccx, offset_y: ccy, radius: cr } => {
            match rt {
                Hitbox::Rect { offset_x: rcx, offset_y: rcy, half_w: rhw, half_h: rhh } => {
                    let nx = clamp_i64(ccx, rcx - rhw, rcx + rhw);
                    let ny = clamp_i64(ccy, rcy - rhh, rcy + rhh);
                    circle_side_push(ccx - nx, ccy - ny, cr, ccx - rcx, ccy - rcy, rhw, rhh)
                },
                Hitbox::Circle { offset_x: bcx, offset_y: bcy, radius: br } => {
                    let vx = ccx - bcx;
                    let vy = ccy - bcy;
                    let reach = cr + br;
                    proof {
                        lemma_square_bound(vx as int);
                        lemma_square_bound(vy as int);
                        lemma_square_bound(reach as int);
                    }
                    let d2 = vx * vx + vy * vy;
                    if d2 >= reach * reach {
                        (0, 0)
                    } else if d2 > 0 {
                        radial_push(vx, vy, reach)
                    } else {
                        (reach, 0)
                    }
                },
            }
        },
    }
}

/// The push shared by both circle-against-rectangle cases: radial for
/// a separation vector `v`, or along the axis of least penetration of
/// the center delta `(dx, dy)` against extents `(hw, hh)` when `v` is
/// zero. Zero when `v` already reaches the radius.
fn circle_side_push(vx: i64, vy: i64, cr: i64, dx: i64, dy: i64, hw: i64, hh: i64) -> (p: (
    i64,
    i64,
))
    requires
        -0x200_0000 <= vx <= 0x200_0000,
        -0x200_0000 <= vy <= 0x200_0000,
        0 < cr <= SHAPE_BOUND,
        -0x200_0000 <= dx <= 0x200_0000,
        -0x200_0000 <= dy <= 0x200_0000,
        0 < hw <= SHAPE_BOUND,
        0 < hh <= SHAPE_BOUND,
        vx == 0 && vy == 0 ==> spec_abs(dx as int) <= hw && spec_abs(dy as int) <= hh,
    ensures
        (p.0 as int, p.1 as int) == ({
            let d2 = (vx as int) * (vx as int) + (vy as int) * (vy as int);
            if d2 >= (cr as int) * (cr as int) {
                (0int, 0int)
            } else if d2 > 0 {
                spec_radial_push(vx as int, vy as int, cr as int)
            } else {
                let px = hw + cr - spec_abs(dx as int);
                let py = hh + cr - spec_abs(dy as int);
                if px <= py {
                    (if dx >= 0 {
                        px
                    } else {
                        -px
                    }, 0int)
                } else {
                    (0int, if dy >= 0 {
                        py
                    } else {
                        -py
                    })
                }
            }
        }),
        -4 * SHAPE_BOUND <= p.0 <= 4 * SHAPE_BOUND,
        -4 * SHAPE_BOUND <= p.1 <= 4 * SHAPE_BOUND,
{
    proof {
        lemma_square_bound(vx as int);
        lemma_square_bound(vy as int);
        lemma_square_bound(cr as int);
    }
    let d2 = vx * vx + vy * vy;
    if d2 >= cr * cr {
        (0, 0)
    } else if d2 > 0 {
        radial_push(vx, vy, cr)
    } else {
        proof {
            assert(vx * vx == 0 ==> vx == 0) by (nonlinear_arith);
            assert(vy * vy == 0 ==> vy == 0) by (nonlinear_arith);
        }
        let px = hw + cr - abs_i64(dx);
        let py = hh + cr - abs_i64(dy);
        if px <= py {
            (if dx >= 0 {
                px
            } else {
                -px
            }, 0)
        } else {
            (0, if dy >= 0 {
                py
            } else {
                -py
            })
        }
    }
}

/// The radial push, executable: the vector's components scaled by the
/// missing distance over the current distance, rounded away from zero.
fn radial_push(vx: i64, vy: i64, reach: i64) -> (p: (i64, i64))
    requires
        -0x200_0000 <= vx <= 0x200_0000,
        -0x200_0000 <= vy <= 0x200_0000,
        0 < reach <= 2 * SHAPE_BOUND,
        0 < vx * vx + vy * vy,
        vx * vx + vy * vy < reach * reach,
    ensures
        (p.0 as int, p.1 as int) == spec_radial_push(vx as int, vy as int, reach as int),
        -reach <= p.0 <= reach,
        -reach <= p.1 <= reach,
{
    proof {
        lemma_square_bound(vx as int);
        lemma_square_bound(vy as int);
        lemma_radial_push_props(vx as int, vy as int, reach as int);
    }
    let d2 = vx * vx + vy * vy;
    let dist = isqrt(d2 as u64) as i64;
    let m = reach - dist;
    proof {
        assert(vx * m <= 0x200_0000 * (2 * SHAPE_BOUND) && vx * m >= -0x200_0000 * (2
            * SHAPE_BOUND)) by (nonlinear_arith)
            requires
                -0x200_0000 <= vx <= 0x200_0000,
                0 <= m <= 2 * SHAPE_BOUND,
        ;
        assert(vy * m <= 0x200_0000 * (2 * SHAPE_BOUND) && vy * m >= -0x200_0000 * (2
            * SHAPE_BOUND)) by (nonlinear_arith)
            requires
                -0x200_0000 <= vy <= 0x200_0000,
                0 <= m <= 2 * SHAPE_BOUND,
        ;
    }
    let px = div_away(vx * m, dist);
    let py = div_away(vy * m, dist);
    (px, py)
}

/// The absolute value of a bounded coordinate difference.
fn abs_i64(v: i64) -> (r: i64)
    requires
        i64::MIN < v,
    ensures
        r == spec_abs(v as int),
{
    if v < 0 {
        -v
    } else {
        v
    }
}

/// The point of `[lo, hi]` nearest to `v`.
fn clamp_i64(v: i64, lo: i64, hi: i64) -> (r: i64)
    requires
        lo <= hi,
    ensures
        r == spec_clamp(v as int, lo as int, hi as int),
        lo <= r <= hi,
{
    if v < lo {
        lo
    } else if v > hi {
        hi
    } else {
        v
    }
}

/// Negation squares away.
proof fn lemma_square_neg(x: int)
    ensures
        (-x) * (-x) == x * x,
{
    assert((-x) * (-x) == x * x) by (nonlinear_arith);
}

/// Only zero squares to zero.
proof fn lemma_square_zero(x: int)
    ensures
        x * x == 0 ==> x == 0,
        x * x >= 0,
{
    assert(x * x == 0 ==> x == 0) by (nonlinear_arith);
    assert(x * x >= 0) by (nonlinear_arith);
}

/// The rectangle-out-of-rectangle push is zero exactly when the pair
/// does not overlap, is bounded by the combined extents, and separates
/// the pair.
proof fn lemma_rects_push_separates(
    rcx: int,
    rcy: int,
    rhw: int,
    rhh: int,
    dcx: int,
    dcy: int,
    dhw: int,
    dhh: int,
)
    requires
        0 < rhw,
        0 < rhh,
        0 < dhw,
        0 < dhh,
    ensures
        ({
            let p = spec_rects_push(rcx, rcy, rhw, rhh, dcx, dcy, dhw, dhh);
            &&& !spec_rects_overlap(dcx, dcy, dhw, dhh, rcx, rcy, rhw, rhh) ==> p == (0int, 0int)
            &&& spec_rects_overlap(dcx, dcy, dhw, dhh, rcx, rcy, rhw, rhh) ==> !(p == (
                0int,
                0int,
            ))
            &&& spec_abs(p.0) <= rhw + dhw
            &&& spec_abs(p.1) <= rhh + dhh
            &&& !spec_rects_overlap(dcx + p.0, dcy + p.1, dhw, dhh, rcx, rcy, rhw, rhh)
        }),
{
    let dx = dcx - rcx;
    let dy = dcy - rcy;
    let px = rhw + dhw - spec_abs(dx);
    let py = rhh + dhh - spec_abs(dy);
    if px <= 0 || py <= 0 {
    } else {
        if px <= py {
            if dx >= 0 {
                assert(spec_abs(dcx + px - rcx) == rhw + dhw);
            } else {
                assert(spec_abs(dcx - px - rcx) == rhw + dhw);
            }
        } else {
            if dy >= 0 {
                assert(spec_abs(dcy + py - rcy) == rhh + dhh);
            } else {
                assert(spec_abs(dcy - py - rcy) == rhh + dhh);
            }
        }
    }
}

/// The rectangle-out-of-circle push is zero exactly when the pair does
/// not overlap, is bounded, and separates the pair.
#[verifier::rlimit(50)]
proof fn lemma_rect_circle_push_separates(
    dcx: int,
    dcy: int,
    dhw: int,
    dhh: int,
    ccx: int,
    ccy: int,
    cr: int,
)
    requires
        0 < dhw,
        0 < dhh,
        0 < cr,
    ensures
        ({
            let p = spec_rect_circle_push(dcx, dcy, dhw, dhh, ccx, ccy, cr);
            &&& !spec_rect_circle_overlap(dcx, dcy, dhw, dhh, ccx, ccy, cr) ==> p == (0int, 0int)
            &&& spec_abs(p.0) <= dhw + cr
            &&& spec_abs(p.1) <= dhh + cr
            &&& !spec_rect_circle_overlap(dcx + p.0, dcy + p.1, dhw, dhh, ccx, ccy, cr)
        }),
{
    let nx = spec_clamp(ccx, dcx - dhw, dcx + dhw);
    let ny = spec_clamp(ccy, dcy - dhh, dcy + dhh);
    let ux = nx - ccx;
    let uy = ny - ccy;
    let d2 = ux * ux + uy * uy;
    lemma_square_neg(ux);
    lemma_square_neg(uy);
    lemma_square_zero(ux);
    lemma_square_zero(uy);
    assert((ccx - nx) * (ccx - nx) == ux * ux && (ccy - ny) * (ccy - ny) == uy * uy) by {
        assert(ccx - nx == -ux && ccy - ny == -uy);
    }
    if d2 >= cr * cr {
        // No overlap and a zero push: nothing moves, nothing changes.
    } else if d2 > 0 {
        lemma_radial_push_props(ux, uy, cr);
        let p = spec_radial_push(ux, uy, cr);
        let wx = ux + p.0;
        let wy = uy + p.1;
        // The circle's center keeps its side of the moved rectangle on
        // both axes, so the new nearest point shifts with the push.
        let nx2 = spec_clamp(ccx, dcx + p.0 - dhw, dcx + p.0 + dhw);
        let ny2 = spec_clamp(ccy, dcy + p.1 - dhh, dcy + p.1 + dhh);
        assert(nx2 - ccx == wx);
        assert(ny2 - ccy == wy);
        lemma_square_neg(wx);
        lemma_square_neg(wy);
        assert((ccx - nx2) * (ccx - nx2) + (ccy - ny2) * (ccy - ny2) >= cr * cr) by {
            assert(ccx - nx2 == -wx && ccy - ny2 == -wy);
        }
    } else {
        assert(ux == 0 && uy == 0);
        let dx = dcx - ccx;
        let dy = dcy - ccy;
        assert(spec_abs(dx) <= dhw && spec_abs(dy) <= dhh);
        let px = dhw + cr - spec_abs(dx);
        let py = dhh + cr - spec_abs(dy);
        if px <= py {
            let sx = if dx >= 0 {
                px
            } else {
                -px
            };
            let nx2 = spec_clamp(ccx, dcx + sx - dhw, dcx + sx + dhw);
            let ny2 = spec_clamp(ccy, dcy - dhh, dcy + dhh);
            assert(spec_abs(ccx - nx2) == cr);
            assert(ccy - ny2 == 0);
            lemma_square_neg(cr);
            assert((ccx - nx2) * (ccx - nx2) == cr * cr) by {
                if ccx - nx2 == cr {
                } else {
                    assert(ccx - nx2 == -cr);
                }
            }
        } else {
            let sy = if dy >= 0 {
                py
            } else {
                -py
            };
            let nx2 = spec_clamp(ccx, dcx - dhw, dcx + dhw);
            let ny2 = spec_clamp(ccy, dcy + sy - dhh, dcy + sy + dhh);
            assert(spec_abs(ccy - ny2) == cr);
            assert(ccx - nx2 == 0);
            lemma_square_neg(cr);
            assert((ccy - ny2) * (ccy - ny2) == cr * cr) by {
                if ccy - ny2 == cr {
                } else {
                    assert(ccy - ny2 == -cr);
                }
            }
        }
    }
}

/// The circle-out-of-rectangle push is zero exactly when the pair does
/// not overlap, is bounded, and separates the pair.
#[verifier::rlimit(50)]
proof fn lemma_circle_rect_push_separates(
    ccx: int,
    ccy: int,
    cr: int,
    rcx: int,
    rcy: int,
    rhw: int,
    rhh: int,
)
    requires
        0 < cr,
        0 < rhw,
        0 < rhh,
    ensures
        ({
            let p = spec_circle_rect_push(ccx, ccy, cr, rcx, rcy, rhw, rhh);
            &&& !spec_rect_circle_overlap(rcx, rcy, rhw, rhh, ccx, ccy, cr) ==> p == (0int, 0int)
            &&& spec_abs(p.0) <= rhw + cr
            &&& spec_abs(p.1) <= rhh + cr
            &&& !spec_rect_circle_overlap(rcx, rcy, rhw, rhh, ccx + p.0, ccy + p.1, cr)
        }),
{
    let nx = spec_clamp(ccx, rcx - rhw, rcx + rhw);
    let ny = spec_clamp(ccy, rcy - rhh, rcy + rhh);
    let vx = ccx - nx;
    let vy = ccy - ny;
    let d2 = vx * vx + vy * vy;
    lemma_square_zero(vx);
    lemma_square_zero(vy);
    if d2 >= cr * cr {
    } else if d2 > 0 {
        lemma_radial_push_props(vx, vy, cr);
        let p = spec_radial_push(vx, vy, cr);
        let wx = vx + p.0;
        let wy = vy + p.1;
        // The moved center keeps its side of the static rectangle on
        // both axes, so the nearest point stays put.
        let nx2 = spec_clamp(ccx + p.0, rcx - rhw, rcx + rhw);
        let ny2 = spec_clamp(ccy + p.1, rcy - rhh, rcy + rhh);
        assert(ccx + p.0 - nx2 == wx);
        assert(ccy + p.1 - ny2 == wy);
    } else {
        assert(vx == 0 && vy == 0);
        let dx = ccx - rcx;
        let dy = ccy - rcy;
        assert(spec_abs(dx) <= rhw && spec_abs(dy) <= rhh);
        let px = rhw + cr - spec_abs(dx);
        let py = rhh + cr - spec_abs(dy);
        if px <= py {
            let sx = if dx >= 0 {
                px
            } else {
                -px
            };
            let nx2 = spec_clamp(ccx + sx, rcx - rhw, rcx + rhw);
            let ny2 = spec_clamp(ccy, rcy - rhh, rcy + rhh);
            assert(spec_abs(ccx + sx - nx2) == cr);
            assert(ccy - ny2 == 0);
            lemma_square_neg(cr);
            assert((ccx + sx - nx2) * (ccx + sx - nx2) == cr * cr) by {
                if ccx + sx - nx2 == cr {
                } else {
                    assert(ccx + sx - nx2 == -cr);
                }
            }
        } else {
            let sy = if dy >= 0 {
                py
            } else {
                -py
            };
            let nx2 = spec_clamp(ccx, rcx - rhw, rcx + rhw);
            let ny2 = spec_clamp(ccy + sy, rcy - rhh, rcy + rhh);
            assert(spec_abs(ccy + sy - ny2) == cr);
            assert(ccx - nx2 == 0);
            lemma_square_neg(cr);
            assert((ccy + sy - ny2) * (ccy + sy - ny2) == cr * cr) by {
                if ccy + sy - ny2 == cr {
                } else {
                    assert(ccy + sy - ny2 == -cr);
                }
            }
        }
    }
}

/// The circle-out-of-circle push is zero exactly when the pair does
/// not overlap, is bounded, and separates the pair.
proof fn lemma_circles_push_separates(acx: int, acy: int, ar: int, bcx: int, bcy: int, br: int)
    requires
        0 < ar,
        0 < br,
    ensures
        ({
            let p = spec_circles_push(acx, acy, ar, bcx, bcy, br);
            &&& !spec_circles_overlap(acx, acy, ar, bcx, bcy, br) ==> p == (0int, 0int)
            &&& spec_abs(p.0) <= ar + br
            &&& spec_abs(p.1) <= ar + br
            &&& !spec_circles_overlap(acx + p.0, acy + p.1, ar, bcx, bcy, br)
        }),
{
    let vx = acx - bcx;
    let vy = acy - bcy;
    let d2 = vx * vx + vy * vy;
    let reach = ar + br;
    lemma_square_zero(vx);
    lemma_square_zero(vy);
    if d2 >= reach * reach {
    } else if d2 > 0 {
        lemma_radial_push_props(vx, vy, reach);
        let p = spec_radial_push(vx, vy, reach);
        assert(acx + p.0 - bcx == vx + p.0 && acy + p.1 - bcy == vy + p.1);
    } else {
        assert(vx == 0 && vy == 0);
        assert(acx + reach - bcx == reach && acy - bcy == 0);
    }
}

/// The overlap test does not care which shape probes which: it is
/// symmetric in its two transformed hitboxes.
pub proof fn lemma_intersects_symmetric(a: Hitbox, apos: (i64, i64), b: Hitbox, bpos: (i64, i64))
    ensures
        spec_hitbox_intersects(a, apos, b, bpos) == spec_hitbox_intersects(b, bpos, a, apos),
{
    let at = a.spec_with_transform(apos);
    let bt = b.spec_with_transform(bpos);
    match (at, bt) {
        (
            Hitbox::Rect { offset_x: ax, offset_y: ay, half_w: aw, half_h: ah },
            Hitbox::Rect { offset_x: bx, offset_y: by, half_w: bw, half_h: bh },
        ) => {
            assert(spec_abs(ax - bx) == spec_abs(bx - ax) && spec_abs(ay - by) == spec_abs(
                by - ay,
            ));
        },
        (
            Hitbox::Circle { offset_x: ax, offset_y: ay, radius: ar },
            Hitbox::Circle { offset_x: bx, offset_y: by, radius: br },
        ) => {
            lemma_square_neg((ax - bx) as int);
            lemma_square_neg((ay - by) as int);
            assert((ax - bx) as int == -((bx - ax) as int) && (ay - by) as int == -((by
                - ay) as int));
        },
        _ => {},
    }
}

/// The resolution push is honest: it is the zero vector exactly when
/// the two transformed shapes do not overlap, and translating the
/// dynamic shape by it always leaves the pair non-overlapping.
pub proof fn lemma_collision_separates(
    dynamic: Hitbox,
    dpos: (i64, i64),
    rigid: Hitbox,
    rpos: (i64, i64),
)
    requires
        dynamic.wf(),
        rigid.wf(),
        -GEOM_BOUND <= dpos.0 <= GEOM_BOUND,
        -GEOM_BOUND <= dpos.1 <= GEOM_BOUND,
        -GEOM_BOUND <= rpos.0 <= GEOM_BOUND,
        -GEOM_BOUND <= rpos.1 <= GEOM_BOUND,
    ensures
        ({
            let p = spec_hitbox_collision(dynamic, dpos, rigid, rpos);
            &&& !spec_hitbox_intersects(dynamic, dpos, rigid, rpos) ==> p == (0int, 0int)
            &&& spec_hitbox_intersects(dynamic, dpos, rigid, rpos) ==> !(p == (0int, 0int))
            &&& -4 * SHAPE_BOUND <= p.0 <= 4 * SHAPE_BOUND
            &&& -4 * SHAPE_BOUND <= p.1 <= 4 * SHAPE_BOUND
            &&& !spec_hitbox_intersects(
                dynamic,
                (((dpos.0 + p.0)) as i64, ((dpos.1 + p.1)) as i64),
                rigid,
                rpos,
            )
        }),
{
    let dt = dynamic.spec_with_transform(dpos);
    let rt = rigid.spec_with_transform(rpos);
    let p = spec_hitbox_collision(dynamic, dpos, rigid, rpos);
    match (dt, rt) {
        (
            Hitbox::Rect { offset_x: dx, offset_y: dy, half_w: dw, half_h: dh },
            Hitbox::Rect { offset_x: rx, offset_y: ry, half_w: rw, half_h: rh },
        ) => {
            lemma_rects_push_separates(
                rx as int,
                ry as int,
                rw as int,
                rh as int,
                dx as int,
                dy as int,
                dw as int,
                dh as int,
            );
        },
        (
            Hitbox::Rect { offset_x: dx, offset_y: dy, half_w: dw, half_h: dh },
            Hitbox::Circle { offset_x: cx, offset_y: cy, radius: cr },
        ) => {
            lemma_rect_circle_push_separates(
                dx as int,
                dy as int,
                dw as int,
                dh as int,
                cx as int,
                cy as int,
                cr as int,
            );
        },
        (
            Hitbox::Circle { offset_x: cx, offset_y: cy, radius: cr },
            Hitbox::Rect { offset_x: rx, offset_y: ry, half_w: rw, half_h: rh },
        ) => {
            lemma_circle_rect_push_separates(
                cx as int,
                cy as int,
                cr as int,
                rx as int,
                ry as int,
                rw as int,
                rh as int,
            );
        },
        (
            Hitbox::Circle { offset_x: ax, offset_y: ay, radius: ar },
            Hitbox::Circle { offset_x: bx, offset_y: by, radius: br },
        ) => {
            lemma_circles_push_separates(
                ax as int,
                ay as int,
                ar as int,
                bx as int,
                by as int,
                br as int,
            );
        },
    }
    // A zero push on an overlapping pair would leave the pair where it
    // stands, which the separation clause already rules out.
    if spec_hitbox_intersects(dynamic, dpos, rigid, rpos) && p == (0int, 0int) {
        assert(((dpos.0 + p.0)) as i64 == dpos.0 && ((dpos.1 + p.1)) as i64 == dpos.1);
    }
}

/// Squares of bounded coordinates stay comfortably inside `i64`.
proof fn lemma_square_bound(v: int)
    requires
        -0x200_0000 <= v <= 0x200_0000,
    ensures
        0 <= v * v <= 0x200_0000 * 0x200_0000,
{
    assert(0 <= v * v <= 0x200_0000 * 0x200_0000) by (nonlinear_arith)
        requires
            -0x200_0000 <= v <= 0x200_0000,
    ;
}

} // verus!
