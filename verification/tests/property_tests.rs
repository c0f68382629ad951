use matvec::matrix2d::Matrix2d;
use matvec::matrix3d::Matrix3d;
use matvec::matrix4d::Matrix4d;
use matvec::vector2d::Vector2d;
use matvec::vector3d::Vector3d;
use matvec::vector4d::Vector4d;

#[test]
fn round_trip_from_components() {
    let v2 = Vector2d::new_from([-1, 2]);
    assert_eq!(Vector2d::new_from(v2.to_list()), v2);
    let v3 = Vector3d::new_from([-1, 2, -3]);
    assert_eq!(Vector3d::new_from(v3.to_list()), v3);
    let v4 = Vector4d::new_from([-1, 2, -3, 4]);
    assert_eq!(Vector4d::new_from(v4.to_list()), v4);
}

#[test]
fn addition_is_commutative() {
    let a = Vector3d::new_from([1, -2, 3]);
    let b = Vector3d::new_from([10, 20, -30]);
    assert_eq!(a.plus(&b), b.plus(&a));

    let ma = Matrix2d::new([1, 2, 3, 4]);
    let mb = Matrix2d::new([-4, -3, -2, -1]);
    assert_eq!(ma.plus(&mb), mb.plus(&ma));

    let m4a = Matrix4d::new_from_constant(3);
    let m4b = Matrix4d::new([1, 2, 3, 4, 5, 6, 7, 8, 9, 10, 11, 12, 13, 14, 15, 16]);
    assert_eq!(m4a.plus(&m4b), m4b.plus(&m4a));
}

#[test]
fn matrix_multiplication_is_associative() {
    let a = Matrix2d::new([1, 2, 3, 4]);
    let b = Matrix2d::new([5, 6, 7, 8]);
    let c = Matrix2d::new([-1, 0, 2, -3]);
    assert_eq!(a.multiply(&b).multiply(&c), a.multiply(&b.multiply(&c)));

    let a3 = Matrix3d::new([1, 2, 3, 4, 5, 6, 7, 8, 9]);
    let b3 = Matrix3d::new([9, 8, 7, 6, 5, 4, 3, 2, 1]);
    let c3 = Matrix3d::new([1, 0, 2, 0, 3, 0, 4, 0, 5]);
    assert_eq!(a3.multiply(&b3).multiply(&c3), a3.multiply(&b3.multiply(&c3)));

    let a4 = Matrix4d::new([1, 2, 3, 4, 5, 6, 7, 8, 9, 10, 11, 12, 13, 14, 15, 16]);
    let b4 = Matrix4d::new([2, 0, 0, 1, 0, 2, 1, 0, 0, 1, 2, 0, 1, 0, 0, 2]);
    let c4 = Matrix4d::new([1, 1, 0, 0, 0, 1, 1, 0, 0, 0, 1, 1, 1, 0, 0, 1]);
    assert_eq!(a4.multiply(&b4).multiply(&c4), a4.multiply(&b4.multiply(&c4)));
}

#[test]
fn identity_matrix_preserves_vectors() {
    let i2 = Matrix2d::new([1, 0, 0, 1]);
    let v2 = Vector2d::new_from([-7, 9]);
    assert_eq!(i2.transform(&v2), v2);

    let i3 = Matrix3d::new([1, 0, 0, 0, 1, 0, 0, 0, 1]);
    let v3 = Vector3d::new_from([2, 3, 4]);
    assert_eq!(i3.transform(&v3), v3);

    let i4 = Matrix4d::new([1, 0, 0, 0, 0, 1, 0, 0, 0, 0, 1, 0, 0, 0, 0, 1]);
    let v4 = Vector4d::new_from([5, -6, 7, -8]);
    assert_eq!(i4.transform(&v4), v4);
}

#[test]
fn scaling_distributes_over_addition() {
    let a = Matrix2d::new([1, 2, 3, 4]);
    let b = Matrix2d::new([5, -6, 7, -8]);
    let s = 3;
    assert_eq!(a.plus(&b).scale(s), a.scale(s).plus(&b.scale(s)));

    let va = Vector4d::new_from([1, -2, 3, -4]);
    let vb = Vector4d::new_from([5, 6, -7, -8]);
    assert_eq!(va.plus(&vb).scale(-2), va.scale(-2).plus(&vb.scale(-2)));
}

#[test]
fn dot_with_self_is_sum_of_squares() {
    let v2 = Vector2d::new_from([-3, 4]);
    assert_eq!(v2.dot(&v2), 9 + 16);
    assert!(v2.dot(&v2) >= 0);

    let v3 = Vector3d::new_from([-1, -2, -3]);
    assert_eq!(v3.dot(&v3), 1 + 4 + 9);
    assert!(v3.dot(&v3) >= 0);

    let v4 = Vector4d::new_from([0, 0, 0, 0]);
    assert_eq!(v4.dot(&v4), 0);
}

#[test]
fn equality_is_exact_and_symmetric() {
    let a = Vector2d::new_from([1, 2]);
    let b = Vector2d::new_from([1, 2]);
    let c = Vector2d::new_from([2, 2]);
    assert_eq!(a, a);
    assert_eq!(a, b);
    assert_eq!(b, a);
    assert_ne!(a, c);
    assert_ne!(c, a);
    assert!(a.equals(&b));
    assert!(!a.equals(&c));
    assert!(Vector3d::new_from([1, 2, 3]).equals(&Vector3d::new_from([1, 2, 3])));
    assert!(!Vector4d::new_from([1, 2, 3, 4]).equals(&Vector4d::new_from([1, 2, 3, 5])));

    let ma = Matrix4d::new_from_constant(1);
    let mb = Matrix4d::new_from_constant(1);
    let mut mc = Matrix4d::new_from_constant(1);
    mc.set(7, 2);
    assert!(ma.equals(&mb));
    assert!(mb.equals(&ma));
    assert!(!ma.equals(&mc));
}

#[test]
fn two_by_two_transform_scenario() {
    let m = Matrix2d::new([1, 2, 3, 4]);
    let v = Vector2d::new_from([2, 5]);
    assert_eq!(m.transform(&v), Vector2d::new_from([1 * 2 + 2 * 5, 3 * 2 + 4 * 5]));
    assert_eq!(m.transform(&v), Vector2d::new_from([12, 26]));
}

#[test]
fn three_by_three_identity_scenario() {
    let m = Matrix3d::new([1, 0, 0, 0, 1, 0, 0, 0, 1]);
    let v = Vector3d::new_from([2, 3, 4]);
    assert_eq!(m.transform(&v), Vector3d::new_from([2, 3, 4]));
}

#[test]
fn four_by_four_scalar_add_scenario() {
    let m = Matrix4d::new_from_constant(1);
    assert_eq!(m.plus_scalar(1), Matrix4d::new_from_constant(2));
}

#[test]
fn vector_subtraction_scenario() {
    let a = Vector3d::new_from([1, 2, 3]);
    let b = Vector3d::new_from([2, 3, 4]);
    assert_eq!(a.minus(&b), Vector3d::new_from([-1, -1, -1]));
}

#[test]
fn multiplication_keeps_operand_order() {
    let a = Matrix2d::new([1, 2, 3, 4]);
    let b = Matrix2d::new([0, 1, 1, 0]);
    assert_eq!(a.multiply(&b), Matrix2d::new([2, 1, 4, 3]));
    assert_eq!(b.multiply(&a), Matrix2d::new([3, 4, 1, 2]));
    assert_ne!(a.multiply(&b), b.multiply(&a));
}

#[test]
fn large_entries_within_limit_multiply_exactly() {
    // Entries at the documented magnitude limit still multiply without
    // overflow: 4 * 2^30 * 2^30 fits a 64-bit result.
    let l = 0x4000_0000;
    let m = Matrix4d::new_from_constant(l);
    let sq = m.multiply(&m);
    assert_eq!(sq.at(0), 4 * l * l);
    let neg = Matrix4d::new_from_constant(-l);
    let mixed = neg.multiply(&m);
    assert_eq!(mixed.at(5), -4 * l * l);
}
