use softraster::fixed::ONE;
use softraster::matrix::{create_model_matrix, dot4, matrix_multiply, new_matrix4, Matrix};
use softraster::shaders::multiply_matrix_vector4;
use softraster::vector::{Vector3, Vector4};

fn fx(v: f64) -> i32 {
    (v * 65536.0).round() as i32
}

fn identity() -> Matrix {
    new_matrix4(ONE, 0, 0, 0, 0, ONE, 0, 0, 0, 0, ONE, 0, 0, 0, 0, ONE)
}

fn scaling(s: i32) -> Matrix {
    new_matrix4(s, 0, 0, 0, 0, s, 0, 0, 0, 0, s, 0, 0, 0, 0, ONE)
}

fn translation(x: i32, y: i32, z: i32) -> Matrix {
    new_matrix4(ONE, 0, 0, x, 0, ONE, 0, y, 0, 0, ONE, z, 0, 0, 0, ONE)
}

fn apply(m: &Matrix, x: f64, y: f64, z: f64) -> Vector4 {
    multiply_matrix_vector4(m, &Vector4::new(fx(x), fx(y), fx(z), ONE))
}

#[test]
fn new_matrix4_stores_column_by_column() {
    let m = new_matrix4(0, 1, 2, 3, 10, 11, 12, 13, 20, 21, 22, 23, 30, 31, 32, 33);
    assert_eq!((m.m0, m.m1, m.m2, m.m3), (0, 10, 20, 30));
    assert_eq!((m.m4, m.m5, m.m6, m.m7), (1, 11, 21, 31));
    assert_eq!((m.m8, m.m9, m.m10, m.m11), (2, 12, 22, 32));
    assert_eq!((m.m12, m.m13, m.m14, m.m15), (3, 13, 23, 33));
}

#[test]
fn dot4_is_exact_then_rounded_down() {
    assert_eq!(dot4(ONE, ONE, 0, 0, 0, 0, 0, 0), ONE);
    assert_eq!(dot4(fx(1.5), fx(2.0), fx(0.5), fx(0.5), 0, 0, 0, 0), fx(3.25));
    assert_eq!(dot4(1, 1, 0, 0, 0, 0, 0, 0), 0);
    assert_eq!(dot4(-1, 1, 0, 0, 0, 0, 0, 0), -1);
    assert_eq!(dot4(3, fx(0.5), 0, 0, 0, 0, 0, 0), 1);
    assert_eq!(dot4(-3, fx(0.5), 0, 0, 0, 0, 0, 0), -2);
    assert_eq!(dot4(1, 2, 3, 4, 5, 6, 7, 65536), 7);
}

#[test]
fn dot4_saturates() {
    let m = i32::MAX;
    assert_eq!(dot4(m, m, m, m, m, m, m, m), i32::MAX);
    assert_eq!(dot4(m, i32::MIN, m, i32::MIN, m, i32::MIN, m, i32::MIN), i32::MIN);
    assert_eq!(dot4(i32::MIN, i32::MIN, i32::MIN, i32::MIN, 0, 0, 0, 0), i32::MAX);
}

#[test]
fn identity_maps_a_point_to_itself() {
    let p = apply(&identity(), 1.25, -2.5, 3.0);
    assert_eq!(p, Vector4::new(fx(1.25), fx(-2.5), fx(3.0), ONE));
}

#[test]
fn multiplying_by_identity_changes_nothing() {
    let m = new_matrix4(
        fx(1.0),
        fx(2.0),
        fx(3.0),
        fx(4.0),
        fx(-1.5),
        fx(0.25),
        fx(7.0),
        fx(8.0),
        fx(9.0),
        fx(10.0),
        fx(11.0),
        fx(12.0),
        fx(0.0),
        fx(0.5),
        fx(0.0),
        fx(1.0),
    );
    assert_eq!(matrix_multiply(&m, &identity()), m);
    assert_eq!(matrix_multiply(&identity(), &m), m);
}

#[test]
fn product_applies_the_left_matrix_first() {
    let scale_then_move = matrix_multiply(&scaling(fx(2.0)), &translation(fx(1.0), 0, 0));
    assert_eq!(apply(&scale_then_move, 1.0, 0.0, 0.0), Vector4::new(fx(3.0), 0, 0, ONE));
    let move_then_scale = matrix_multiply(&translation(fx(1.0), 0, 0), &scaling(fx(2.0)));
    assert_eq!(apply(&move_then_scale, 1.0, 0.0, 0.0), Vector4::new(fx(4.0), 0, 0, ONE));
}

#[test]
fn product_entries_are_rows_times_columns() {
    let a = new_matrix4(1, 2, 3, 4, 5, 6, 7, 8, 9, 10, 11, 12, 13, 14, 15, 16);
    let b = new_matrix4(17, 18, 19, 20, 21, 22, 23, 24, 25, 26, 27, 28, 29, 30, 31, 32);
    let scale = |m: Matrix| {
        let mut out = m;
        for f in [
            &mut out.m0,
            &mut out.m1,
            &mut out.m2,
            &mut out.m3,
            &mut out.m4,
            &mut out.m5,
            &mut out.m6,
            &mut out.m7,
            &mut out.m8,
            &mut out.m9,
            &mut out.m10,
            &mut out.m11,
            &mut out.m12,
            &mut out.m13,
            &mut out.m14,
            &mut out.m15,
        ] {
            *f *= ONE;
        }
        out
    };
    // matrix_multiply(a, b) is the ordinary product b * a.
    let expected = new_matrix4(
        538, 612, 686, 760, 650, 740, 830, 920, 762, 868, 974, 1080, 874, 996, 1118, 1240,
    );
    assert_eq!(matrix_multiply(&scale(a), &scale(b)), scale(expected));
}

#[test]
fn model_matrix_without_rotation_scales_then_translates() {
    let m = create_model_matrix(
        Vector3::new(fx(10.0), fx(20.0), fx(30.0)),
        fx(2.0),
        Vector3::new(0, 0, 0),
        Vector3::new(ONE, ONE, ONE),
    );
    assert_eq!(
        m,
        new_matrix4(
            fx(2.0),
            0,
            0,
            fx(10.0),
            0,
            fx(2.0),
            0,
            fx(20.0),
            0,
            0,
            fx(2.0),
            fx(30.0),
            0,
            0,
            0,
            ONE
        )
    );
    assert_eq!(apply(&m, 1.0, 2.0, 3.0), Vector4::new(fx(12.0), fx(24.0), fx(36.0), ONE));
}

#[test]
fn quarter_turn_about_z_takes_x_to_y() {
    let m = create_model_matrix(
        Vector3::new(0, 0, 0),
        ONE,
        Vector3::new(0, 0, ONE),
        Vector3::new(ONE, ONE, 0),
    );
    assert_eq!(apply(&m, 1.0, 0.0, 0.0), Vector4::new(0, ONE, 0, ONE));
    assert_eq!(apply(&m, 0.0, 1.0, 0.0), Vector4::new(-ONE, 0, 0, ONE));
}

#[test]
fn rotations_apply_about_z_then_y_then_x() {
    let m = create_model_matrix(
        Vector3::new(0, 0, 0),
        ONE,
        Vector3::new(ONE, ONE, ONE),
        Vector3::new(0, 0, 0),
    );
    assert_eq!(apply(&m, 1.0, 0.0, 0.0), Vector4::new(0, 0, ONE, ONE));
}

#[test]
fn model_matrix_scales_before_it_rotates_and_translates_last() {
    let m = create_model_matrix(
        Vector3::new(fx(5.0), 0, 0),
        fx(3.0),
        Vector3::new(0, 0, ONE),
        Vector3::new(ONE, ONE, 0),
    );
    assert_eq!(apply(&m, 1.0, 0.0, 0.0), Vector4::new(fx(5.0), fx(3.0), 0, ONE));
}

#[test]
fn model_matrix_takes_any_word() {
    let m = create_model_matrix(
        Vector3::new(i32::MIN, i32::MAX, i32::MIN),
        i32::MAX,
        Vector3::new(i32::MIN, i32::MIN, i32::MIN),
        Vector3::new(i32::MAX, i32::MIN, i32::MAX),
    );
    assert_eq!(m.m15, ONE);
    assert_eq!(m.m12, i32::MIN);
    assert_eq!(m.m13, i32::MAX);
}
