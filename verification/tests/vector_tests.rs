use matvec::vector2d::Vector2d;
use matvec::vector3d::Vector3d;
use matvec::vector4d::Vector4d;

#[test]
fn vector_init_and_cmp() {
    let v1 = Vector2d::new_from([1, 2]);
    assert_eq!(v1.x, 1);
    assert_eq!(v1.y, 2);

    let v2 = Vector2d::new_from([1, 2]);
    assert_eq!(v1, v2);
}

#[test]
fn dot_product() {
    let v1 = Vector2d::new_from([1, 2]);
    let v2 = Vector2d::new_from([1, 2]);
    let dotty = v1.dot(&v2);
    assert_eq!(dotty, 1 + 4);
}

#[test]
fn vector3d_init_and_cmp() {
    let v1 = Vector3d::new_from([1, 2, 3]);
    assert_eq!(v1.x, 1);
    assert_eq!(v1.y, 2);
    assert_eq!(v1.z, 3);

    let v2 = Vector3d::new_from([1, 2, 3]);
    assert_eq!(v1, v2);
}

#[test]
fn dot_product_3d() {
    let v1 = Vector3d::new_from([1, 2, 3]);
    let v2 = Vector3d::new_from([1, 2, 3]);
    let dotty = v1.dot(&v2);
    assert_eq!(dotty, 1 + 4 + 9);
}

#[test]
fn vector3d_addition() {
    let v1 = Vector3d::new_from([1, 2, 3]);
    let v2 = Vector3d::new_from([2, 3, 4]);
    let sum = v1.plus(&v2);
    assert_eq!(sum.x, 3);
    assert_eq!(sum.y, 5);
    assert_eq!(sum.z, 7);
}

#[test]
fn vector3d_add_scalar() {
    let v1 = Vector3d::new_from([1, 2, 3]);
    let sum = v1.plus_scalar(2);
    assert_eq!(sum.x, 3);
    assert_eq!(sum.y, 4);
    assert_eq!(sum.z, 5);
}

#[test]
fn vector3d_subtraction() {
    let v1 = Vector3d::new_from([1, 2, 3]);
    let v2 = Vector3d::new_from([2, 3, 4]);
    let diff = v1.minus(&v2);
    assert_eq!(diff.x, -1);
    assert_eq!(diff.y, -1);
    assert_eq!(diff.z, -1);
}

#[test]
fn vector3d_sub_scalar() {
    let v1 = Vector3d::new_from([1, 2, 3]);
    let diff = v1.minus_scalar(2);
    assert_eq!(diff.x, -1);
    assert_eq!(diff.y, 0);
    assert_eq!(diff.z, 1);
}

#[test]
fn vector3d_multiplication_scalar() {
    let v1 = Vector3d::new_from([1, 2, 3]);
    let product = v1.scale(2);
    assert_eq!(product.x, 2);
    assert_eq!(product.y, 4);
    assert_eq!(product.z, 6);
}

#[test]
fn vector3d_division_scalar() {
    let v1 = Vector3d::new_from([2, 4, 6]);
    let quotient = v1.divide(2);
    assert_eq!(quotient.x, 1);
    assert_eq!(quotient.y, 2);
    assert_eq!(quotient.z, 3);
}

#[test]
fn vector4d_init_and_cmp() {
    let v1 = Vector4d::new_from([1, 2, 3, 4]);
    assert_eq!(v1.x, 1);
    assert_eq!(v1.y, 2);
    assert_eq!(v1.z, 3);
    assert_eq!(v1.w, 4);

    let v2 = Vector4d::new_from([1, 2, 3, 4]);
    assert_eq!(v1, v2);
}

#[test]
fn dot_product_4d() {
    let v1 = Vector4d::new_from([1, 2, 3, 4]);
    let v2 = Vector4d::new_from([1, 2, 3, 4]);
    let dotty = v1.dot(&v2);
    assert_eq!(dotty, 1 + 4 + 9 + 16);
}

#[test]
fn vector_constant_and_zero() {
    let c2 = Vector2d::new_from_const(7);
    assert_eq!(c2, Vector2d::new_from([7, 7]));
    let c3 = Vector3d::new_from_const(-2);
    assert_eq!(c3, Vector3d::new_from([-2, -2, -2]));
    let c4 = Vector4d::new_from_const(0);
    assert_eq!(c4, Vector4d::new());
    assert_eq!(Vector2d::new(), Vector2d::new_from([0, 0]));
    assert_eq!(Vector3d::new(), Vector3d::new_from([0, 0, 0]));
}

#[test]
fn vector_to_list_round_trip() {
    let v2 = Vector2d::new_from([5, -6]);
    assert_eq!(Vector2d::new_from(v2.to_list()), v2);
    let v3 = Vector3d::new_from([5, -6, 7]);
    assert_eq!(Vector3d::new_from(v3.to_list()), v3);
    let v4 = Vector4d::new_from([5, -6, 7, -8]);
    assert_eq!(Vector4d::new_from(v4.to_list()), v4);
}

#[test]
fn vector_to_vec_lists_components() {
    let v3 = Vector3d::new_from([9, 8, 7]);
    assert_eq!(v3.to_vec(), vec![9, 8, 7]);
    let v4 = Vector4d::new_from([1, -2, 3, -4]);
    assert_eq!(v4.to_vec(), vec![1, -2, 3, -4]);
    assert_eq!(v4.to_list(), [1, -2, 3, -4]);
}

#[test]
fn vector_indexed_access() {
    let mut v = Vector4d::new_from([10, 20, 30, 40]);
    assert_eq!(v.at(0), 10);
    assert_eq!(v.at(3), 40);
    v.set(2, -5);
    assert_eq!(v.at(2), -5);
    assert_eq!(v, Vector4d::new_from([10, 20, -5, 40]));

    let mut v2 = Vector2d::new_from([1, 2]);
    v2.set(1, 9);
    assert_eq!(v2.at(1), 9);

    let mut v3 = Vector3d::new_from([1, 2, 3]);
    v3.set(0, 4);
    assert_eq!(v3.to_list(), [4, 2, 3]);
}

#[test]
fn vector_division_truncates_toward_zero() {
    let v = Vector3d::new_from([-9, 9, -7]);
    let q = v.divide(2);
    assert_eq!(q.to_list(), [-4, 4, -3]);
    let qn = v.divide(-2);
    assert_eq!(qn.to_list(), [4, -4, 3]);
}

#[test]
fn vector2d_subtract_and_scalars() {
    let v1 = Vector2d::new_from([5, 3]);
    let v2 = Vector2d::new_from([2, 8]);
    assert_eq!(v1.minus(&v2), Vector2d::new_from([3, -5]));
    assert_eq!(v1.plus_scalar(4), Vector2d::new_from([9, 7]));
    assert_eq!(v1.minus_scalar(4), Vector2d::new_from([1, -1]));
    assert_eq!(v1.scale(-3), Vector2d::new_from([-15, -9]));
}

#[test]
fn vector4d_full_arithmetic() {
    let v1 = Vector4d::new_from([1, 2, 3, 4]);
    let v2 = Vector4d::new_from([4, 3, 2, 1]);
    assert_eq!(v1.plus(&v2), Vector4d::new_from_const(5));
    assert_eq!(v1.minus(&v2), Vector4d::new_from([-3, -1, 1, 3]));
    assert_eq!(v1.plus_scalar(1), Vector4d::new_from([2, 3, 4, 5]));
    assert_eq!(v1.minus_scalar(1), Vector4d::new_from([0, 1, 2, 3]));
    assert_eq!(v1.scale(2), Vector4d::new_from([2, 4, 6, 8]));
    assert_eq!(v1.divide(-1), Vector4d::new_from([-1, -2, -3, -4]));
    assert_eq!(v1.dot(&v2), 4 + 6 + 6 + 4);
}
