use rustcraft::{scale2, scale3, tranlate2, tranlate3, Mat, Mat2, Mat3, Mat3x2, Mat4, Vec2, Vec3, Vec4};

#[test]
fn test_cross_happy_path() {
    let v1 = Vec3::from([1, 0, 0]);
    let v2 = Vec3::from([0, 1, 0]);
    let cross = v1.cross(v2);
    assert_eq!(cross, Vec3::from([0, 0, 1]));

    let v1 = Vec3::from([1, 2, 3]);
    let v2 = Vec3::from([4, 5, 6]);
    let cross = v1.cross(v2);
    assert_eq!(cross, Vec3::from([-3, 6, -3]));
}

#[test]
fn test_cross_parallel_vectors() {
    let v1 = Vec3::from([1, 2, 3]);
    let v2 = Vec3::from([2, 4, 6]);
    let cross = v1.cross(v2);
    assert_eq!(cross, Vec3::<i64>::default());
}

#[test]
fn cross_is_orthogonal_to_both_factors() {
    let a = Vec3::new(3, -7, 2);
    let b = Vec3::new(-4, 5, 9);
    let c = a.cross(b);
    assert_eq!(c.dot(a), 0);
    assert_eq!(c.dot(b), 0);
    assert_eq!(a.dot(b), -12 - 35 + 18);
}

#[test]
fn test_translate2_happy_path() {
    let v = Vec2::from([1, 2]);
    let matrix = tranlate2(v);
    assert_eq!(matrix, Mat3::from([[1, 0, 1], [0, 1, 2], [0, 0, 1]]));
}

#[test]
fn test_translate2_zero_vector() {
    let v = Vec2::default();
    let matrix = tranlate2(v);
    assert_eq!(matrix, Mat3::from([[1, 0, 0], [0, 1, 0], [0, 0, 1]]));
}

#[test]
fn test_scale2_happy_path() {
    let v = Vec2::from([2, 3]);
    let matrix = scale2(v);
    assert_eq!(matrix, Mat3::from([[2, 0, 0], [0, 3, 0], [0, 0, 1]]));
}

#[test]
fn test_scale2_zero_vector() {
    let v = Vec2::from([0, 0]);
    let matrix = scale2(v);
    assert_eq!(matrix, Mat3::from([[0, 0, 0], [0, 0, 0], [0, 0, 1]]));
}

#[test]
fn test_translate3_happy_path() {
    let v = Vec3::from([1, 2, 3]);
    let matrix = tranlate3(v);
    assert_eq!(
        matrix,
        Mat4::from([[1, 0, 0, 1], [0, 1, 0, 2], [0, 0, 1, 3], [0, 0, 0, 1]])
    );
}

#[test]
fn test_translate3_zero_vector() {
    let v = Vec3::default();
    let matrix = tranlate3(v);
    assert_eq!(matrix, Mat4::I());
}

#[test]
fn test_scale3_happy_path() {
    let v = Vec3::from([2, 3, 4]);
    let matrix = scale3(v);
    assert_eq!(
        matrix,
        Mat4::from([[2, 0, 0, 0], [0, 3, 0, 0], [0, 0, 4, 0], [0, 0, 0, 1]])
    );
}

#[test]
fn test_scale3_zero_vector() {
    let v = Vec3::from([0, 0, 0]);
    let matrix = scale3(v);
    assert_eq!(
        matrix,
        Mat4::from([[0, 0, 0, 0], [0, 0, 0, 0], [0, 0, 0, 0], [0, 0, 0, 1]])
    );
}

#[test]
fn translation_moves_origin_to_offset() {
    let t = tranlate3(Vec3::new(5, -2, 7));
    let origin: Mat<i64, 4, 1> = Mat::from([[0], [0], [0], [1]]);
    assert_eq!(t.mul(&origin), Mat::from([[5], [-2], [7], [1]]));
}

#[test]
fn uniform_scale_multiplies_point() {
    let s = scale3(Vec3::new(3, 3, 3));
    let p: Mat<i64, 4, 1> = Mat::from([[1], [-2], [4], [1]]);
    assert_eq!(s.mul(&p), Mat::from([[3], [-6], [12], [1]]));
}

#[test]
fn matrix_product_is_associative_on_example() {
    let a: Mat<i64, 2, 3> = Mat::from([[1, 2, 3], [4, 5, 6]]);
    let b: Mat<i64, 3, 2> = Mat::from([[7, 8], [9, 10], [11, 12]]);
    let c: Mat2<i64> = Mat::from([[1, -1], [2, 0]]);
    let ab = a.mul(&b);
    assert_eq!(ab, Mat::from([[58, 64], [139, 154]]));
    assert_eq!(ab.mul(&c), a.mul(&b.mul(&c)));
    assert_eq!(ab.mul(&c), Mat::from([[186, -58], [447, -139]]));
}

#[test]
fn entrywise_operations() {
    let a: Mat2<i64> = Mat::from([[1, 2], [3, 4]]);
    let b: Mat2<i64> = Mat::from([[10, 20], [30, 40]]);
    assert_eq!(a.add(&b), Mat::from([[11, 22], [33, 44]]));
    assert_eq!(b.sub(&a), Mat::from([[9, 18], [27, 36]]));
    assert_eq!(a.neg(), Mat::from([[-1, -2], [-3, -4]]));
    assert_eq!(a.mul_scalar(3), Mat::from([[3, 6], [9, 12]]));
    assert_eq!(Mat2::<i64>::zero(), Mat::from([[0, 0], [0, 0]]));
    assert_eq!(Mat2::<i64>::new(), Mat::from([[1, 0], [0, 1]]));
    assert_eq!(Mat4::<i64>::new(), Mat4::I());
    assert_eq!(Mat3x2::<i64>::new(), Mat::from([[1, 0], [0, 1], [0, 0]]));
    assert_eq!(Mat::<i64, 2, 4>::new(), Mat::from([[1, 0, 0, 0], [0, 1, 0, 0]]));
    assert_eq!(Mat3::<i64>::identity(), Mat::from([[1, 0, 0], [0, 1, 0], [0, 0, 1]]));
}

#[test]
fn transpose_and_shape() {
    let a: Mat<i64, 2, 3> = Mat::from([[1, 2, 3], [4, 5, 6]]);
    let t = a.T();
    assert_eq!(t, Mat::from([[1, 4], [2, 5], [3, 6]]));
    assert_eq!(t.transpose(), a);
    assert_eq!(a.rows(), 2);
    assert_eq!(a.cols(), 3);
    assert_eq!(a.count(), 6);
    let mut m = a;
    m.set(1, 2, 60);
    assert_eq!(m.get(1, 2), 60);
    assert_eq!(m.get(0, 2), 3);
}

#[test]
fn swizzles_and_setters() {
    let mut v = Vec4::new(1, 2, 3, 4);
    assert_eq!(v.xy(), Vec2::new(1, 2));
    assert_eq!(v.yz(), Vec2::new(2, 3));
    assert_eq!(v.zw(), Vec2::new(3, 4));
    assert_eq!(v.xyz(), Vec3::new(1, 2, 3));
    assert_eq!(v.yzw(), Vec3::new(2, 3, 4));
    assert_eq!(v.xyzw(), v);
    v.set_w(9);
    v.set_x(7);
    assert_eq!((*v.x(), *v.y(), *v.z(), *v.w()), (7, 2, 3, 9));
    let mut u = Vec3::new(1, 2, 3);
    u.set_y(5);
    u.set_z(6);
    assert_eq!(u.yz(), Vec2::new(5, 6));
    assert_eq!(u.xy(), Vec2::new(1, 5));
    assert_eq!(u.xyz(), u);
    let mut w = Vec2::new(1, 2);
    w.set_y(8);
    assert_eq!(w.xy(), Vec2::new(1, 8));
    assert_eq!(Vec4::from([1, 2, 3, 4]), Vec4::new(1, 2, 3, 4));
}

#[test]
fn vector_arithmetic() {
    let a = Vec3::new(1i64, -2, 3);
    let b = Vec3::new(4i64, 5, -6);
    assert_eq!(a.add(b), Vec3::new(5, 3, -3));
    assert_eq!(a.sub(b), Vec3::new(-3, -7, 9));
    assert_eq!(a.mul_scalar(-2), Vec3::new(-2, 4, -6));
    assert_eq!(a.neg(), Vec3::new(-1, 2, -3));
}
