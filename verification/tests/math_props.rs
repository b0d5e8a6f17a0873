use voxel_core::fixed::{isqrt, mul_fx, SCALE};
use voxel_core::math::{Mat4, Vec3};
use voxel_core::trig::{cos_fx, rad, sin_fx, PI_FX};

fn dot_raw(a: &Vec3, b: &Vec3) -> i128 {
    a.x as i128 * b.x as i128 + a.y as i128 * b.y as i128 + a.z as i128 * b.z as i128
}

#[test]
fn isqrt_small_values() {
    assert_eq!(isqrt(0), 0);
    assert_eq!(isqrt(1), 1);
    assert_eq!(isqrt(15), 3);
    assert_eq!(isqrt(16), 4);
    assert_eq!(isqrt(1_000_000_000_000), 1_000_000);
}

#[test]
fn isqrt_largest_accepted() {
    assert_eq!(isqrt(9_000_000_000_000_000_000), 3_000_000_000);
}

#[test]
fn mul_fx_scales_and_truncates() {
    assert_eq!(mul_fx(2_500_000, 2_000_000), 5_000_000);
    assert_eq!(mul_fx(-3_000_000, 500_000), -1_500_000);
    assert_eq!(mul_fx(1, 1), 0);
    assert_eq!(mul_fx(-1, 999_999), 0);
    assert_eq!(mul_fx(0, 123_456), 0);
}

#[test]
fn rad_converts_half_turn_exactly() {
    assert_eq!(rad(180_000_000), PI_FX);
    assert_eq!(rad(0), 0);
    assert_eq!(rad(-180_000_000), -PI_FX);
}

#[test]
fn trig_at_cardinal_angles() {
    assert_eq!(sin_fx(0), 0);
    assert_eq!(cos_fx(0), SCALE);
    assert!((sin_fx(90 * SCALE) - SCALE).abs() <= 100);
    assert!(cos_fx(90 * SCALE).abs() <= 200);
    assert!((sin_fx(30 * SCALE) - 500_000).abs() <= 100);
    assert!((sin_fx(-90 * SCALE) + SCALE).abs() <= 100);
    assert!((cos_fx(180 * SCALE) + SCALE).abs() <= 200);
}

#[test]
fn vector_add_sub_mul() {
    let a = Vec3::new(1_000_000, -2_000_000, 3_000_000);
    let b = Vec3::new(500_000, 500_000, -500_000);
    let s = a.add(&b);
    assert_eq!((s.x, s.y, s.z), (1_500_000, -1_500_000, 2_500_000));
    let d = a.sub(&b);
    assert_eq!((d.x, d.y, d.z), (500_000, -2_500_000, 3_500_000));
    let m = Vec3::mul(&a, 2_000_000);
    assert_eq!((m.x, m.y, m.z), (2_000_000, -4_000_000, 6_000_000));
}

#[test]
fn normalize_axis_vectors_exactly() {
    let v = Vec3::new(0, 0, 3 * SCALE);
    let n = v.normalize();
    assert_eq!((n.x, n.y, n.z), (0, 0, SCALE));
    let w = Vec3::new(-5 * SCALE, 0, 0);
    let nw = w.normalize();
    assert_eq!((nw.x, nw.y, nw.z), (-SCALE, 0, 0));
}

#[test]
fn normalize_three_four_five_triangle() {
    let v = Vec3::new(3 * SCALE, 4 * SCALE, 0);
    let n = v.normalize();
    assert_eq!((n.x, n.y, n.z), (600_000, 800_000, 0));
    assert_eq!(dot_raw(&n, &n), (SCALE as i128) * (SCALE as i128));
}

#[test]
fn normalize_zero_vector_stays_zero() {
    let v = Vec3::new(0, 0, 0);
    let n = v.normalize();
    assert_eq!((n.x, n.y, n.z), (0, 0, 0));
}

#[test]
fn normalize_unit_magnitude_within_rounding() {
    let samples = [
        Vec3::new(123_456, 789_012, 345_678),
        Vec3::new(-7_654_321, 1_234_567, 9_999_999),
        Vec3::new(1_500_000_000, -1_500_000_000, 1_500_000_000),
        Vec3::new(62_500, 0, 0),
        Vec3::new(-1, 999_999, 2),
    ];
    let unit = (SCALE as i128) * (SCALE as i128);
    for v in samples.iter() {
        let n = v.normalize();
        let mag = dot_raw(&n, &n);
        assert!(mag >= unit - 6 * SCALE as i128, "too short: {mag}");
        assert!(mag <= unit + 48 * SCALE as i128, "too long: {mag}");
    }
}

#[test]
fn cross_of_unit_axes() {
    let up = Vec3::new(0, SCALE, 0);
    let fwd = Vec3::new(0, 0, SCALE);
    let c = Vec3::cross(&up, &fwd);
    assert_eq!((c.x, c.y, c.z), (SCALE, 0, 0));
}

#[test]
fn cross_orthogonal_within_rounding() {
    let a = Vec3::new(3 * SCALE, -2 * SCALE, SCALE);
    let b = Vec3::new(SCALE, 4 * SCALE, -2 * SCALE);
    let c = Vec3::cross(&a, &b);
    let da = dot_raw(&c, &a);
    let db = dot_raw(&c, &b);
    let bound_a = 2 * (a.x.abs() + a.y.abs() + a.z.abs()) as i128;
    let bound_b = 2 * (b.x.abs() + b.y.abs() + b.z.abs()) as i128;
    assert!(da.abs() <= bound_a, "dot with a: {da}");
    assert!(db.abs() <= bound_b, "dot with b: {db}");
}

#[test]
fn cross_antisymmetric() {
    let a = Vec3::new(123_456, -654_321, 777_777);
    let b = Vec3::new(-42, 1_000_000, 31_337);
    let ab = Vec3::cross(&a, &b);
    let ba = Vec3::cross(&b, &a);
    assert_eq!((ab.x, ab.y, ab.z), (-ba.x, -ba.y, -ba.z));
}

#[test]
fn uniform_scale_matrix_layout() {
    let m = Mat4::new(2 * SCALE);
    assert_eq!(m.mat[0], 2 * SCALE);
    assert_eq!(m.mat[5], 2 * SCALE);
    assert_eq!(m.mat[10], 2 * SCALE);
    assert_eq!(m.mat[15], SCALE);
    for i in [1, 2, 3, 4, 6, 7, 8, 9, 11, 12, 13, 14] {
        assert_eq!(m.mat[i], 0);
    }
}

#[test]
fn translate_sets_translation_column() {
    let mut m = Mat4::new(SCALE);
    m.translate(Vec3::new(7, -8, 9));
    assert_eq!(m.mat[12], 7);
    assert_eq!(m.mat[13], -8);
    assert_eq!(m.mat[14], 9);
    assert_eq!(m.mat[0], SCALE);
}

#[test]
fn rotate_zero_angle_is_identity() {
    let mut m = Mat4::new(SCALE);
    m.rotate(Vec3::new(12_345, -54_321, 999_999), 0);
    assert_eq!(m.mat[0], SCALE);
    assert_eq!(m.mat[5], SCALE);
    assert_eq!(m.mat[10], SCALE);
    for i in [1, 2, 4, 6, 8, 9] {
        assert_eq!(m.mat[i], 0);
    }
    assert_eq!(m.mat[15], SCALE);
}

#[test]
fn rotate_quarter_turn_about_y() {
    let mut m = Mat4::new(SCALE);
    m.rotate(Vec3::new(0, SCALE, 0), 90 * SCALE);
    // cos 90 ~ 0, sin 90 ~ 1: the block should be close to
    // [0 0 -1; 0 1 0; 1 0 0] in these column-major slots.
    assert!(m.mat[0].abs() <= 300);
    assert!((m.mat[2] + SCALE).abs() <= 300);
    assert!((m.mat[5] - SCALE).abs() <= 300);
    assert!((m.mat[8] - SCALE).abs() <= 300);
    assert!(m.mat[10].abs() <= 300);
}

#[test]
fn look_at_along_negative_z() {
    let mut m = Mat4::new(SCALE);
    let eye = Vec3::new(0, 0, 3 * SCALE);
    let target = Vec3::new(0, 0, 2 * SCALE);
    let world_up = Vec3::new(0, SCALE, 0);
    m.look_at(&eye, &target, &world_up);
    // direction axis (0, 0, 1)
    assert_eq!((m.mat[2], m.mat[6], m.mat[10]), (0, 0, SCALE));
    // right axis (1, 0, 0), from cross(world_up, dir)
    assert_eq!((m.mat[0], m.mat[4], m.mat[8]), (SCALE, 0, 0));
    // up axis (0, 1, 0)
    assert_eq!((m.mat[1], m.mat[5], m.mat[9]), (0, SCALE, 0));
    // translation: the eye in that basis, negated
    assert_eq!((m.mat[12], m.mat[13], m.mat[14]), (0, 0, -3 * SCALE));
    assert_eq!(m.mat[15], SCALE);
}
