use p2pg::angle::{
    angle_to_vec, from_u8_angle, sin_byte, to_u8_angle, vec_to_angle, ANGLE_STEP, ANGLE_TURN,
    UNIT_SCALE,
};

/// Encoding then decoding any angle lands within one quantization step.
#[test]
fn round_trip_within_one_step() {
    for a in 0..ANGLE_TURN {
        let back = from_u8_angle(to_u8_angle(a));
        let diff = if back > a { back - a } else { a - back };
        assert!(diff <= ANGLE_STEP, "angle {} decoded to {}", a, back);
    }
}

/// Decoding then encoding any byte is the identity.
#[test]
fn bytes_re_encode_exactly() {
    for b in 0..=255u8 {
        assert_eq!(to_u8_angle(from_u8_angle(b)), b);
        assert_eq!(from_u8_angle(b), b as u32 * 256);
    }
}

#[test]
fn encode_clamps_and_hits_the_ends() {
    assert_eq!(to_u8_angle(0), 0);
    assert_eq!(to_u8_angle(ANGLE_TURN), 255);
    assert_eq!(to_u8_angle(u32::MAX), 255);
    assert_eq!(to_u8_angle(127), 0);
    assert_eq!(to_u8_angle(128), 1);
}

#[test]
fn cardinal_and_diagonal_directions() {
    assert_eq!(vec_to_angle(0, 1), 0);
    assert_eq!(vec_to_angle(1, 1), 32);
    assert_eq!(vec_to_angle(1, 0), 64);
    assert_eq!(vec_to_angle(1, -1), 96);
    assert_eq!(vec_to_angle(0, -1), 128);
    assert_eq!(vec_to_angle(-1, -1), 160);
    assert_eq!(vec_to_angle(-1, 0), 192);
    assert_eq!(vec_to_angle(-1, 1), 224);
    assert_eq!(vec_to_angle(0, 0), 0);
}

#[test]
fn direction_byte_ignores_scale() {
    assert_eq!(vec_to_angle(100, 100), vec_to_angle(7, 7));
    assert_eq!(vec_to_angle(300, -100), vec_to_angle(3, -1));
}

#[test]
fn sine_hits_the_axes() {
    assert_eq!(sin_byte(0), 0);
    assert_eq!(sin_byte(64), UNIT_SCALE);
    assert_eq!(sin_byte(128), 0);
    assert_eq!(sin_byte(192), -UNIT_SCALE);
}

#[test]
fn unit_vectors_point_the_right_way() {
    assert_eq!(angle_to_vec(0), (0, UNIT_SCALE));
    assert_eq!(angle_to_vec(64), (UNIT_SCALE, 0));
    assert_eq!(angle_to_vec(128), (0, -UNIT_SCALE));
    assert_eq!(angle_to_vec(192), (-UNIT_SCALE, 0));
    for b in 0..=255u8 {
        let (x, y) = angle_to_vec(b);
        let n2 = (x as i64) * (x as i64) + (y as i64) * (y as i64);
        let unit2 = (UNIT_SCALE as i64) * (UNIT_SCALE as i64);
        assert!(n2 <= unit2, "byte {} overshoots the unit scale", b);
        assert!(n2 >= unit2 * 9 / 10, "byte {} is far inside the unit circle", b);
    }
}

/// The direction byte of a unit vector comes back near the byte that
/// made it.
#[test]
fn vector_round_trip_stays_close() {
    for b in 0..=255u8 {
        let (x, y) = angle_to_vec(b);
        let back = vec_to_angle(x as i64, y as i64);
        let diff = (back as i32 - b as i32).rem_euclid(256);
        let wrapped = diff.min(256 - diff);
        assert!(wrapped <= 3, "byte {} came back as {}", b, back);
    }
}
