//! Quantized angles and fixed-point direction vectors.
//!
//! An angle is a clockwise rotation from "up", carried on the wire as one
//! byte. Internally a full rotation is `ANGLE_TURN` fixed-point turn units:
//! 255 quantization steps of `ANGLE_STEP` units each, mirroring the byte
//! codec exactly. All trigonometry is integer arithmetic, so every peer
//! computes bit-identical directions.

use vstd::prelude::*;

verus! {

/// One full rotation in fixed-point turn units.
pub const ANGLE_TURN: u32 = 65_280;

/// One quantization step of the byte codec, in turn units.
pub const ANGLE_STEP: u32 = 256;

/// The magnitude of a fixed-point unit vector: direction components are
/// scaled so that a unit length is this many subunits.
pub const UNIT_SCALE: i32 = 256;

/// What `to_u8_angle` returns: the angle clamped to one rotation, then
/// rounded to the nearest of the 255 quantization steps.
pub open spec fn spec_to_u8_angle(angle: int) -> int {
    let clamped = if angle > ANGLE_TURN { ANGLE_TURN as int } else { angle };
    (clamped + 128) / 256
}

/// What `from_u8_angle` returns: the byte scaled back to turn units.
pub open spec fn spec_from_u8_angle(byte: int) -> int {
    byte * 256
}

/// Encode an angle in turn units as the nearest quantized byte.
pub fn to_u8_angle(angle: u32) -> (byte: u8)
    ensures
        byte == spec_to_u8_angle(angle as int),
{
    let clamped = if angle > ANGLE_TURN { ANGLE_TURN } else { angle };
    ((clamped + 128) / 256) as u8
}

/// Decode a quantized byte back to an angle in turn units.
pub fn from_u8_angle(byte: u8) -> (angle: u32)
    ensures
        angle == spec_from_u8_angle(byte as int),
        angle <= ANGLE_TURN,
{
    byte as u32 * 256
}

/// Decoding an encoded angle lands within one quantization step of the
/// original — in fact within half a step, since encoding rounds to the
/// nearest step.
pub proof fn lemma_angle_round_trip(angle: u32)
    requires
        angle < ANGLE_TURN,
    ensures
        spec_from_u8_angle(spec_to_u8_angle(angle as int)) - angle <= ANGLE_STEP / 2,
        angle - spec_from_u8_angle(spec_to_u8_angle(angle as int)) < ANGLE_STEP / 2,
        spec_from_u8_angle(spec_to_u8_angle(angle as int)) - angle <= ANGLE_STEP,
        angle - spec_from_u8_angle(spec_to_u8_angle(angle as int)) <= ANGLE_STEP,
{
    let a = angle as int;
    let e = (a + 128) / 256;
    vstd::arithmetic::div_mod::lemma_fundamental_div_mod(a + 128, 256);
    vstd::arithmetic::div_mod::lemma_mod_bound(a + 128, 256);
    assert(256 * e == a + 128 - ((a + 128) % 256));
}

/// What `vec_to_angle` returns for a displacement `(dx, dy)` with y
/// pointing up: the byte angle clockwise from up, by linear interpolation
/// of the displacement's octant. Exact on the axes and diagonals, within
/// about two byte steps elsewhere.
pub open spec fn spec_vec_to_angle(dx: int, dy: int) -> int {
    if dx == 0 && dy == 0 {
        0
    } else if dx >= 0 && dy > 0 {
        (64 * dx) / (dx + dy)
    } else if dx > 0 && dy <= 0 {
        64 + (64 * -dy) / (dx - dy)
    } else if dx <= 0 && dy < 0 {
        128 + (64 * -dx) / (-dx - dy)
    } else {
        192 + (64 * dy) / (dy - dx)
    }
}

/// The byte angle, clockwise from up, of a displacement with y up.
/// Up maps to 0, right to 64, down to 128, left to 192, and the zero
/// displacement to 0.
pub fn vec_to_angle(dx: i64, dy: i64) -> (byte: u8)
    requires
        -0x1_0000_0000_0000 < dx < 0x1_0000_0000_0000,
        -0x1_0000_0000_0000 < dy < 0x1_0000_0000_0000,
    ensures
        byte == spec_vec_to_angle(dx as int, dy as int),
{
    if dx == 0 && dy == 0 {
        0
    } else if dx >= 0 && dy > 0 {
        proof {
            lemma_octant_fraction(dx as int, dx + dy);
        }
        ((64 * dx) / (dx + dy)) as u8
    } else if dx > 0 && dy <= 0 {
        proof {
            lemma_octant_fraction(-dy as int, dx - dy);
        }
        (64 + (64 * -dy) / (dx - dy)) as u8
    } else if dx <= 0 && dy < 0 {
        proof {
            lemma_octant_fraction(-dx as int, -dx - dy);
        }
        (128 + (64 * -dx) / (-dx - dy)) as u8
    } else {
        proof {
            lemma_octant_fraction(dy as int, dy - dx);
        }
        (192 + (64 * dy) / (dy - dx)) as u8
    }
}

/// Interpolating a non-negative numerator strictly below its denominator
/// across an octant stays inside the octant's 64 byte steps.
proof fn lemma_octant_fraction(num: int, den: int)
    requires
        0 <= num < den,
    ensures
        0 <= (64 * num) / den < 64,
{
    assert(0 <= (64 * num) / den < 64) by (nonlinear_arith)
        requires
            0 <= num < den,
    ;
}

/// What the integer sine approximation returns on a byte angle: a
/// rational approximation of `UNIT_SCALE * sin`, exact at the axes and
/// within about a quarter percent elsewhere.
pub open spec fn spec_sin_byte(byte: int) -> int {
    if byte < 128 {
        let hump = byte * (128 - byte);
        (16 * hump * 256) / (81920 - 4 * hump)
    } else {
        let x = byte - 128;
        let hump = x * (128 - x);
        -((16 * hump * 256) / (81920 - 4 * hump))
    }
}

/// The integer sine of a byte angle, scaled by `UNIT_SCALE`.
pub fn sin_byte(byte: u8) -> (s: i32)
    ensures
        s == spec_sin_byte(byte as int),
        -UNIT_SCALE <= s <= UNIT_SCALE,
{
    let x: i64 = if byte < 128 { byte as i64 } else { byte as i64 - 128 };
    proof {
        lemma_hump_bounds(x as int);
    }
    let hump: i64 = x * (128 - x);
    let magnitude: i64 = (16 * hump * 256) / (81920 - 4 * hump);
    if byte < 128 {
        magnitude as i32
    } else {
        (-magnitude) as i32
    }
}

/// The fixed-point unit vector of a byte angle, clockwise from up:
/// x is the sine and y the cosine, each scaled by `UNIT_SCALE`.
pub fn angle_to_vec(byte: u8) -> (v: (i32, i32))
    ensures
        v.0 == spec_sin_byte(byte as int),
        v.1 == spec_sin_byte(((byte + 64) % 256) as int),
        -UNIT_SCALE <= v.0 <= UNIT_SCALE,
        -UNIT_SCALE <= v.1 <= UNIT_SCALE,
{
    let x = sin_byte(byte);
    let y = sin_byte(((byte as u32 + 64) % 256) as u8);
    (x, y)
}

/// On a quarter rotation the sine numerator stays within the bound that
/// keeps the approximation inside the unit scale.
proof fn lemma_hump_bounds(x: int)
    requires
        0 <= x < 128,
    ensures
        0 <= x * (128 - x) <= 4096,
        0 <= (16 * (x * (128 - x)) * 256) / (81920 - 4 * (x * (128 - x))) <= 256,
{
    let hump = x * (128 - x);
    assert(0 <= x * (128 - x) <= 4096) by (nonlinear_arith)
        requires
            0 <= x < 128,
    ;
    let num = 16 * hump * 256;
    let den = 81920 - 4 * hump;
    assert(den >= 65536);
    assert(num >= 0);
    assert(num <= 256 * den) by (nonlinear_arith)
        requires
            0 <= hump <= 4096,
            num == 16 * hump * 256,
            den == 81920 - 4 * hump,
    ;
    vstd::arithmetic::div_mod::lemma_div_is_ordered(num, 256 * den, den);
    assert((256 * den) / den == 256) by (nonlinear_arith)
        requires
            den >= 65536,
    ;
    vstd::arithmetic::div_mod::lemma_div_pos_is_pos(num, den);
}

} // verus!
