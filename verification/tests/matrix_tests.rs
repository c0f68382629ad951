use matvec::matrix2d::Matrix2d;
use matvec::matrix3d::Matrix3d;
use matvec::matrix4d::Matrix4d;
use matvec::vector2d::Vector2d;
use matvec::vector3d::Vector3d;
use matvec::vector4d::Vector4d;

#[test]
fn matrix2d_matrix_init_macros() {
    let m = Matrix2d::new([1, 1, 1, 1]);
    let m2 = Matrix2d::new_from_constant(1);

    assert_eq!(m, m2);
}

#[test]
fn matrix_add_sub() {
    let m = Matrix2d::new([1, 2, 3, 4]);
    let m2 = Matrix2d::new([1, 2, 3, 4]);
    assert_eq!(m.plus(&m2), Matrix2d::new([2, 4, 6, 8]));
    assert_eq!(m.minus(&m2), Matrix2d::new_from_constant(0));
}

#[test]
fn matrix_mul() {
    let m = Matrix2d::new([1, 2, 3, 4]);
    let m2 = Matrix2d::new([1, 2, 3, 4]);
    assert_eq!(
        m.multiply(&m2),
        Matrix2d::new([
            1 * 1 + 2 * 3,
            1 * 2 + 2 * 4,
            3 * 1 + 4 * 3,
            3 * 2 + 4 * 4,
        ])
    )
}

#[test]
fn matrix_scale() {
    let m = Matrix2d::new_from_constant(1);
    let m2 = m.scale(5);
    assert_eq!(m2, Matrix2d::new_from_constant(5));
}

#[test]
fn matrix_add_scalar() {
    let m = Matrix2d::new_from_constant(1);
    let scalar = 1;
    assert_eq!(m.plus_scalar(scalar), Matrix2d::new_from_constant(2));
}

#[test]
fn matrix2d_matrix_vector_mul() {
    let m = Matrix2d::new([1, 0, 0, 1]);

    let v = Vector2d::new_from([2, 5]);
    let voutput = m.transform(&v);
    assert_eq!(v, voutput);

    let m2 = Matrix2d::new([2, 4, 5, 6]);

    let result = Vector2d::new_from([2 * 2 + 4 * 5, 5 * 2 + 6 * 5]);
    assert_eq!(result, m2.transform(&v));
}

#[test]
fn matrix3d_matrix_init_macros() {
    let m = Matrix3d::new_from_constant(1);
    assert_eq!(m, Matrix3d::new([1, 1, 1, 1, 1, 1, 1, 1, 1]));
}

#[test]
fn matrix3d_matrix_vector_mul() {
    let m = Matrix3d::new([1, 2, 3, 4, 5, 6, 7, 8, 9]);
    let v = Vector3d::new_from([2, 3, 4]);
    let result = m.transform(&v);
    let expected_result = Vector3d::new_from([2 + 6 + 12, 8 + 15 + 24, 14 + 24 + 36]);
    assert_eq!(result, expected_result);
}

#[test]
fn matrix_shape_getters() {
    assert_eq!(Matrix2d::new_from_constant(0).get_rows(), 2);
    assert_eq!(Matrix2d::new_from_constant(0).get_cols(), 2);
    assert_eq!(Matrix3d::new_from_constant(0).get_rows(), 3);
    assert_eq!(Matrix3d::new_from_constant(0).get_cols(), 3);
    assert_eq!(Matrix4d::new_from_constant(0).get_rows(), 4);
    assert_eq!(Matrix4d::new_from_constant(0).get_cols(), 4);
}

#[test]
fn matrix_indexed_access() {
    let mut m = Matrix2d::new([1, 2, 3, 4]);
    assert_eq!(m.at(0), 1);
    assert_eq!(m.at(3), 4);
    m.set(2, 9);
    assert_eq!(m.at(2), 9);
    assert_eq!(m, Matrix2d::new([1, 2, 9, 4]));

    let mut m3 = Matrix3d::new_from_constant(0);
    m3.set(8, 5);
    assert_eq!(m3.at(8), 5);

    let mut m4 = Matrix4d::new_from_constant(0);
    m4.set(15, -3);
    assert_eq!(m4.at(15), -3);
}

#[test]
fn matrix_equals_is_entrywise() {
    let m = Matrix3d::new([1, 2, 3, 4, 5, 6, 7, 8, 9]);
    let same = Matrix3d::new([1, 2, 3, 4, 5, 6, 7, 8, 9]);
    let off_by_one = Matrix3d::new([1, 2, 3, 4, 5, 6, 7, 8, 10]);
    assert!(m.equals(&same));
    assert!(m.equals(&m));
    assert!(same.equals(&m));
    assert!(!m.equals(&off_by_one));
    assert_ne!(m, off_by_one);
}

#[test]
fn matrix3d_arithmetic() {
    let a = Matrix3d::new([1, 2, 3, 4, 5, 6, 7, 8, 9]);
    let b = Matrix3d::new([9, 8, 7, 6, 5, 4, 3, 2, 1]);
    assert_eq!(a.plus(&b), Matrix3d::new_from_constant(10));
    assert_eq!(a.minus(&b), Matrix3d::new([-8, -6, -4, -2, 0, 2, 4, 6, 8]));
    assert_eq!(a.plus_scalar(1), Matrix3d::new([2, 3, 4, 5, 6, 7, 8, 9, 10]));
    assert_eq!(a.minus_scalar(1), Matrix3d::new([0, 1, 2, 3, 4, 5, 6, 7, 8]));
    assert_eq!(a.scale(2), Matrix3d::new([2, 4, 6, 8, 10, 12, 14, 16, 18]));
}

#[test]
fn matrix3d_multiplication() {
    let a = Matrix3d::new([1, 2, 3, 4, 5, 6, 7, 8, 9]);
    let identity = Matrix3d::new([1, 0, 0, 0, 1, 0, 0, 0, 1]);
    assert_eq!(a.multiply(&identity), a);
    assert_eq!(identity.multiply(&a), a);
    let b = Matrix3d::new([2, 0, 0, 0, 2, 0, 0, 0, 2]);
    assert_eq!(a.multiply(&b), a.scale(2));
}

#[test]
fn matrix4d_arithmetic_and_mul() {
    let a = Matrix4d::new([1, 2, 3, 4, 5, 6, 7, 8, 9, 10, 11, 12, 13, 14, 15, 16]);
    let identity = Matrix4d::new([1, 0, 0, 0, 0, 1, 0, 0, 0, 0, 1, 0, 0, 0, 0, 1]);
    assert_eq!(a.multiply(&identity), a);
    assert_eq!(identity.multiply(&a), a);
    let b = Matrix4d::new_from_constant(1);
    assert_eq!(
        a.plus(&b),
        Matrix4d::new([2, 3, 4, 5, 6, 7, 8, 9, 10, 11, 12, 13, 14, 15, 16, 17])
    );
    assert_eq!(
        a.minus(&b),
        Matrix4d::new([0, 1, 2, 3, 4, 5, 6, 7, 8, 9, 10, 11, 12, 13, 14, 15])
    );
    assert_eq!(a.scale(0), Matrix4d::new_from_constant(0));
    // One product entry checked by hand: row 0 of a times column 0 of a.
    let sq = a.multiply(&a);
    assert_eq!(sq.at(0), 1 * 1 + 2 * 5 + 3 * 9 + 4 * 13);
}

#[test]
fn matrix4d_transform() {
    let m = Matrix4d::new([1, 0, 0, 0, 0, 2, 0, 0, 0, 0, 3, 0, 0, 0, 0, 4]);
    let v = Vector4d::new_from([1, 1, 1, 1]);
    assert_eq!(m.transform(&v), Vector4d::new_from([1, 2, 3, 4]));
}
