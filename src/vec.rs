//! Fixed-arity vectors with named components.
use vstd::prelude::*;

use crate::mat::lemma_i64_product_bound;

verus! {

/// A two-component vector.
#[derive(Clone, Copy, PartialEq, Debug, Default)]
pub struct Vec2<T> {
    pub x: T,
    pub y: T,
}

/// A three-component vector.
#[derive(Clone, Copy, PartialEq, Debug, Default)]
pub struct Vec3<T> {
    pub x: T,
    pub y: T,
    pub z: T,
}

/// A four-component vector; `w` is the homogeneous coordinate.
#[derive(Clone, Copy, PartialEq, Debug, Default)]
pub struct Vec4<T> {
    pub x: T,
    pub y: T,
    pub z: T,
    pub w: T,
}

impl<T> Vec2<T> {
    pub fn new(x: T, y: T) -> (r: Self)
        ensures
            r.x == x,
            r.y == y,
    {
        Vec2 { x, y }
    }

    pub fn x(&self) -> (r: &T)
        ensures
            *r == self.x,
    {
        &self.x
    }

    pub fn y(&self) -> (r: &T)
        ensures
            *r == self.y,
    {
        &self.y
    }

    pub fn set_x(&mut self, value: T)
        ensures
            *final(self) == (Vec2 { x: value, ..*old(self) }),
    {
        self.x = value;
    }

    pub fn set_y(&mut self, value: T)
        ensures
            *final(self) == (Vec2 { y: value, ..*old(self) }),
    {
        self.y = value;
    }
}

impl<T: Copy> Vec2<T> {
    pub fn xy(&self) -> (r: Self)
        ensures
            r == *self,
    {
        *self
    }
}

impl<T> Vec3<T> {
    pub fn new(x: T, y: T, z: T) -> (r: Self)
        ensures
            r.x == x,
            r.y == y,
            r.z == z,
    {
        Vec3 { x, y, z }
    }

    pub fn x(&self) -> (r: &T)
        ensures
            *r == self.x,
    {
        &self.x
    }

    pub fn y(&self) -> (r: &T)
        ensures
            *r == self.y,
    {
        &self.y
    }

    pub fn z(&self) -> (r: &T)
        ensures
            *r == self.z,
    {
        &self.z
    }

    pub fn set_x(&mut self, value: T)
        ensures
            *final(self) == (Vec3 { x: value, ..*old(self) }),
    {
        self.x = value;
    }

    pub fn set_y(&mut self, value: T)
        ensures
            *final(self) == (Vec3 { y: value, ..*old(self) }),
    {
        self.y = value;
    }

    pub fn set_z(&mut self, value: T)
        ensures
            *final(self) == (Vec3 { z: value, ..*old(self) }),
    {
        self.z = value;
    }
}

impl<T: Copy> Vec3<T> {
    pub fn xyz(&self) -> (r: Self)
        ensures
            r == *self,
    {
        *self
    }

    pub fn xy(&self) -> (r: Vec2<T>)
        ensures
            r == (Vec2 { x: self.x, y: self.y }),
    {
        Vec2 { x: self.x, y: self.y }
    }

    pub fn yz(&self) -> (r: Vec2<T>)
        ensures
            r == (Vec2 { x: self.y, y: self.z }),
    {
        Vec2 { x: self.y, y: self.z }
    }
}

impl<T> Vec4<T> {
    pub fn new(x: T, y: T, z: T, w: T) -> (r: Self)
        ensures
            r.x == x,
            r.y == y,
            r.z == z,
            r.w == w,
    {
        Vec4 { x, y, z, w }
    }

    pub fn x(&self) -> (r: &T)
        ensures
            *r == self.x,
    {
        &self.x
    }

    pub fn y(&self) -> (r: &T)
        ensures
            *r == self.y,
    {
        &self.y
    }

    pub fn z(&self) -> (r: &T)
        ensures
            *r == self.z,
    {
        &self.z
    }

    pub fn w(&self) -> (r: &T)
        ensures
            *r == self.w,
    {
        &self.w
    }

    pub fn set_x(&mut self, value: T)
        ensures
            *final(self) == (Vec4 { x: value, ..*old(self) }),
    {
        self.x = value;
    }

    pub fn set_y(&mut self, value: T)
        ensures
            *final(self) == (Vec4 { y: value, ..*old(self) }),
    {
        self.y = value;
    }

    pub fn set_z(&mut self, value: T)
        ensures
            *final(self) == (Vec4 { z: value, ..*old(self) }),
    {
        self.z = value;
    }

    pub fn set_w(&mut self, value: T)
        ensures
            *final(self) == (Vec4 { w: value, ..*old(self) }),
    {
        self.w = value;
    }
}

impl<T: Copy> Vec4<T> {
    pub fn xyzw(&self) -> (r: Self)
        ensures
            r == *self,
    {
        *self
    }

    pub fn xy(&self) -> (r: Vec2<T>)
        ensures
            r == (Vec2 { x: self.x, y: self.y }),
    {
        Vec2 { x: self.x, y: self.y }
    }

    pub fn yz(&self) -> (r: Vec2<T>)
        ensures
            r == (Vec2 { x: self.y, y: self.z }),
    {
        Vec2 { x: self.y, y: self.z }
    }

    pub fn zw(&self) -> (r: Vec2<T>)
        ensures
            r == (Vec2 { x: self.z, y: self.w }),
    {
        Vec2 { x: self.z, y: self.w }
    }

    pub fn xyz(&self) -> (r: Vec3<T>)
        ensures
            r == (Vec3 { x: self.x, y: self.y, z: self.z }),
    {
        Vec3 { x: self.x, y: self.y, z: self.z }
    }

    pub fn yzw(&self) -> (r: Vec3<T>)
        ensures
            r == (Vec3 { x: self.y, y: self.z, z: self.w }),
    {
        Vec3 { x: self.y, y: self.z, z: self.w }
    }
}

impl<T: Copy> From<[T; 2]> for Vec2<T> {
    fn from(value: [T; 2]) -> Self {
        Vec2 { x: value[0], y: value[1] }
    }
}

impl<T: Copy> vstd::std_specs::convert::FromSpecImpl<[T; 2]> for Vec2<T> {
    open spec fn obeys_from_spec() -> bool {
        true
    }

    open spec fn from_spec(v: [T; 2]) -> Self {
        Vec2 { x: v[0], y: v[1] }
    }
}

impl<T: Copy> From<[T; 3]> for Vec3<T> {
    fn from(value: [T; 3]) -> Self {
        Vec3 { x: value[0], y: value[1], z: value[2] }
    }
}

impl<T: Copy> vstd::std_specs::convert::FromSpecImpl<[T; 3]> for Vec3<T> {
    open spec fn obeys_from_spec() -> bool {
        true
    }

    open spec fn from_spec(v: [T; 3]) -> Self {
        Vec3 { x: v[0], y: v[1], z: v[2] }
    }
}

impl<T: Copy> From<[T; 4]> for Vec4<T> {
    fn from(value: [T; 4]) -> Self {
        Vec4 { x: value[0], y: value[1], z: value[2], w: value[3] }
    }
}

impl<T: Copy> vstd::std_specs::convert::FromSpecImpl<[T; 4]> for Vec4<T> {
    open spec fn obeys_from_spec() -> bool {
        true
    }

    open spec fn from_spec(v: [T; 4]) -> Self {
        Vec4 { x: v[0], y: v[1], z: v[2], w: v[3] }
    }
}


/// The dot product of two integer triples.
pub open spec fn dot3(a: Vec3<i64>, b: Vec3<i64>) -> int {
    a.x * b.x + a.y * b.y + a.z * b.z
}

/// The cross product of two integer triples, component by component.
pub open spec fn cross3(a: Vec3<i64>, b: Vec3<i64>) -> (int, int, int) {
    (a.y * b.z - a.z * b.y, a.z * b.x - a.x * b.z, a.x * b.y - a.y * b.x)
}

/// Whether three integers each fit in an `i64`.
pub open spec fn fits3(x: int, y: int, z: int) -> bool {
    &&& i64::MIN <= x <= i64::MAX
    &&& i64::MIN <= y <= i64::MAX
    &&& i64::MIN <= z <= i64::MAX
}

/// Whether each component of `cross3(a, b)` fits in an `i64`.
pub open spec fn cross_fits(a: Vec3<i64>, b: Vec3<i64>) -> bool {
    let c = cross3(a, b);
    fits3(c.0, c.1, c.2)
}

/// Whether `dot3(a, b)` and each of its partial sums fit in an `i64`.
pub open spec fn dot_fits(a: Vec3<i64>, b: Vec3<i64>) -> bool {
    &&& i64::MIN <= a.x * b.x <= i64::MAX
    &&& i64::MIN <= a.x * b.x + a.y * b.y <= i64::MAX
    &&& i64::MIN <= dot3(a, b) <= i64::MAX
}

impl Vec3<i64> {
    /// The cross product `self × other`.
    pub fn cross(&self, other: Vec3<i64>) -> (r: Vec3<i64>)
        requires
            cross_fits(*self, other),
        ensures
            (r.x as int, r.y as int, r.z as int) == cross3(*self, other),
            r.x * self.x + r.y * self.y + r.z * self.z == 0,
            r.x * other.x + r.y * other.y + r.z * other.z == 0,
    {
        proof {
            lemma_cross_orthogonal(*self, other);
        }
        let (ax, ay, az) = (self.x as i128, self.y as i128, self.z as i128);
        let (bx, by, bz) = (other.x as i128, other.y as i128, other.z as i128);
        proof {
            lemma_i64_product_bound(ay, bz);
            lemma_i64_product_bound(az, by);
            lemma_i64_product_bound(az, bx);
            lemma_i64_product_bound(ax, bz);
            lemma_i64_product_bound(ax, by);
            lemma_i64_product_bound(ay, bx);
        }
        let cx = ay * bz - az * by;
        let cy = az * bx - ax * bz;
        let cz = ax * by - ay * bx;
        Vec3 { x: cx as i64, y: cy as i64, z: cz as i64 }
    }

    /// The componentwise sum `self + other`.
    pub fn add(&self, other: Vec3<i64>) -> (r: Vec3<i64>)
        requires
            fits3(self.x + other.x, self.y + other.y, self.z + other.z),
        ensures
            r.x == self.x + other.x,
            r.y == self.y + other.y,
            r.z == self.z + other.z,
    {
        Vec3 { x: self.x + other.x, y: self.y + other.y, z: self.z + other.z }
    }

    /// The componentwise difference `self - other`.
    pub fn sub(&self, other: Vec3<i64>) -> (r: Vec3<i64>)
        requires
            fits3(self.x - other.x, self.y - other.y, self.z - other.z),
        ensures
            r.x == self.x - other.x,
            r.y == self.y - other.y,
            r.z == self.z - other.z,
    {
        Vec3 { x: self.x - other.x, y: self.y - other.y, z: self.z - other.z }
    }

    /// Every component multiplied by `k`.
    pub fn mul_scalar(&self, k: i64) -> (r: Vec3<i64>)
        requires
            fits3(self.x * k, self.y * k, self.z * k),
        ensures
            r.x == self.x * k,
            r.y == self.y * k,
            r.z == self.z * k,
    {
        Vec3 { x: self.x * k, y: self.y * k, z: self.z * k }
    }

    /// The opposite vector.
    pub fn neg(&self) -> (r: Vec3<i64>)
        requires
            fits3(-self.x, -self.y, -self.z),
        ensures
            r.x == -self.x,
            r.y == -self.y,
            r.z == -self.z,
    {
        Vec3 { x: -self.x, y: -self.y, z: -self.z }
    }

    /// The dot product `self · other`.
    pub fn dot(&self, other: Vec3<i64>) -> (r: i64)
        requires
            dot_fits(*self, other),
        ensures
            r as int == dot3(*self, other),
    {
        let (ax, ay, az) = (self.x as i128, self.y as i128, self.z as i128);
        let (bx, by, bz) = (other.x as i128, other.y as i128, other.z as i128);
        proof {
            lemma_i64_product_bound(ax, bx);
            lemma_i64_product_bound(ay, by);
            lemma_i64_product_bound(az, bz);
        }
        let s = ax * bx + ay * by;
        let s = s + az * bz;
        s as i64
    }
}

/// The cross product of two vectors is orthogonal to each of them.
pub proof fn lemma_cross_orthogonal(a: Vec3<i64>, b: Vec3<i64>)
    ensures
        ({
            let c = cross3(a, b);
            &&& c.0 * a.x + c.1 * a.y + c.2 * a.z == 0
            &&& c.0 * b.x + c.1 * b.y + c.2 * b.z == 0
        }),
{
    let (ax, ay, az) = (a.x as int, a.y as int, a.z as int);
    let (bx, by, bz) = (b.x as int, b.y as int, b.z as int);
    assert((ay * bz - az * by) * ax + (az * bx - ax * bz) * ay + (ax * by - ay * bx) * az == 0)
        by (nonlinear_arith);
    assert((ay * bz - az * by) * bx + (az * bx - ax * bz) * by + (ax * by - ay * bx) * bz == 0)
        by (nonlinear_arith);
}

} // verus!
