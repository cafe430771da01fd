//! Homogeneous translation and scaling matrices over integers.
use vstd::prelude::*;

use crate::mat::{mat_mul, sum_of, Mat3, Mat4};
use crate::vec::{Vec2, Vec3};

verus! {

broadcast use vstd::array::group_array_axioms;

/// The 3 × 3 homogeneous matrix that moves the plane by `(x, y)`.
pub open spec fn translate2_spec(x: int, y: int) -> Seq<Seq<int>> {
    seq![seq![1, 0, x], seq![0, 1, y], seq![0, 0, 1]]
}

/// The 3 × 3 homogeneous matrix that scales the plane by `x` and `y`.
pub open spec fn scale2_spec(x: int, y: int) -> Seq<Seq<int>> {
    seq![seq![x, 0, 0], seq![0, y, 0], seq![0, 0, 1]]
}

/// The 4 × 4 homogeneous matrix that moves space by `(x, y, z)`.
pub open spec fn translate3_spec(x: int, y: int, z: int) -> Seq<Seq<int>> {
    seq![seq![1, 0, 0, x], seq![0, 1, 0, y], seq![0, 0, 1, z], seq![0, 0, 0, 1]]
}

/// The 4 × 4 homogeneous matrix that scales space by `x`, `y` and `z`.
pub open spec fn scale3_spec(x: int, y: int, z: int) -> Seq<Seq<int>> {
    seq![seq![x, 0, 0, 0], seq![0, y, 0, 0], seq![0, 0, z, 0], seq![0, 0, 0, 1]]
}

/// The point `(x, y, z)` as a homogeneous column.
pub open spec fn point3(x: int, y: int, z: int) -> Seq<Seq<int>> {
    seq![seq![x], seq![y], seq![z], seq![1]]
}

/// The 2D translation by `v`.
pub fn tranlate2(v: Vec2<i64>) -> (r: Mat3<i64>)
    ensures
        r@ == translate2_spec(v.x as int, v.y as int),
{
    let r = Mat3::from([[1, 0, v.x], [0, 1, v.y], [0, 0, 1]]);
    assert(r@ =~~= translate2_spec(v.x as int, v.y as int));
    r
}

/// The 2D scaling by the factors in `v`.
pub fn scale2(v: Vec2<i64>) -> (r: Mat3<i64>)
    ensures
        r@ == scale2_spec(v.x as int, v.y as int),
{
    let r = Mat3::from([[v.x, 0, 0], [0, v.y, 0], [0, 0, 1]]);
    assert(r@ =~~= scale2_spec(v.x as int, v.y as int));
    r
}

/// The 3D translation by `v`.
pub fn tranlate3(v: Vec3<i64>) -> (r: Mat4<i64>)
    ensures
        r@ == translate3_spec(v.x as int, v.y as int, v.z as int),
{
    let r = Mat4::from([[1, 0, 0, v.x], [0, 1, 0, v.y], [0, 0, 1, v.z], [0, 0, 0, 1]]);
    assert(r@ =~~= translate3_spec(v.x as int, v.y as int, v.z as int));
    r
}

/// The 3D scaling by the factors in `v`.
pub fn scale3(v: Vec3<i64>) -> (r: Mat4<i64>)
    ensures
        r@ == scale3_spec(v.x as int, v.y as int, v.z as int),
{
    let r = Mat4::from([[v.x, 0, 0, 0], [0, v.y, 0, 0], [0, 0, v.z, 0], [0, 0, 0, 1]]);
    assert(r@ =~~= scale3_spec(v.x as int, v.y as int, v.z as int));
    r
}

/// A translation by `(x, y, z)` moves the origin to `(x, y, z)`.
pub proof fn lemma_translate_origin(x: int, y: int, z: int)
    ensures
        mat_mul(translate3_spec(x, y, z), point3(0, 0, 0), 1) == point3(x, y, z),
{
    let p = mat_mul(translate3_spec(x, y, z), point3(0, 0, 0), 1);
    let t = translate3_spec(x, y, z);
    let o = point3(0, 0, 0);
    reveal_with_fuel(sum_of, 5);
    assert(o[0][0] == 0 && o[1][0] == 0 && o[2][0] == 0 && o[3][0] == 1);
    assert(t[0][3] == x && t[1][3] == y && t[2][3] == z && t[3][3] == 1);
    assert(p[0][0] == x && p[1][0] == y && p[2][0] == z && p[3][0] == 1);
    assert(p =~~= point3(x, y, z));
}

/// A uniform scaling by `k` multiplies a point's coordinates by `k`.
pub proof fn lemma_scale_point(k: int, x: int, y: int, z: int)
    ensures
        mat_mul(scale3_spec(k, k, k), point3(x, y, z), 1) == point3(k * x, k * y, k * z),
{
    let p = mat_mul(scale3_spec(k, k, k), point3(x, y, z), 1);
    reveal_with_fuel(sum_of, 5);
    assert(p =~~= point3(k * x, k * y, k * z));
}

} // verus!
