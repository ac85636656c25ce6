use vstd::prelude::*;

verus! {

/// A 2-dimensional vector.
#[derive(Debug, Clone, Copy, PartialEq, Eq, Hash)]
pub struct Vec2<T> {
    /// `x` coordinate of the vector
    pub x: T,
    /// `y` coordinate of the vector
    pub y: T,
}

/// A 3-dimensional vector.
#[derive(Debug, Clone, Copy, PartialEq, Eq, Hash)]
pub struct Vec3<T> {
    pub x: T,
    pub y: T,
    pub z: T,
}

/// The vector with the given coordinates.
pub fn vec2<T>(x: T, y: T) -> (r: Vec2<T>)
    ensures
        r.x == x,
        r.y == y,
{
    Vec2 { x, y }
}

/// The vector with the given coordinates.
pub fn vec3<T>(x: T, y: T, z: T) -> (r: Vec3<T>)
    ensures
        r.x == x,
        r.y == y,
        r.z == z,
{
    Vec3 { x, y, z }
}

/// `v` kept within `[lo, hi]`: `lo` below it, `hi` above it.
pub open spec fn clamp_spec(v: int, lo: int, hi: int) -> int {
    if v < lo {
        lo
    } else if v > hi {
        hi
    } else {
        v
    }
}

fn clamp_scalar(v: i64, lo: i64, hi: i64) -> (r: i64)
    ensures
        r == clamp_spec(v as int, lo as int, hi as int),
{
    if v < lo {
        lo
    } else if v > hi {
        hi
    } else {
        v
    }
}

impl<T> Vec2<T> {
    /// Extends into a 3-dimensional vector with the given `z`.
    pub fn extend(self, z: T) -> (r: Vec3<T>)
        ensures
            r == (Vec3 { x: self.x, y: self.y, z }),
    {
        vec3(self.x, self.y, z)
    }

    /// Applies `f` to each coordinate, `x` first.
    pub fn map<U, F: Fn(T) -> U>(self, f: F) -> (r: Vec2<U>)
        requires
            f.requires((self.x,)),
            f.requires((self.y,)),
        ensures
            f.ensures((self.x,), r.x),
            f.ensures((self.y,), r.y),
    {
        let x = f(self.x);
        let y = f(self.y);
        vec2(x, y)
    }
}

impl Vec2<i64> {
    /// Dot product: `a.x * b.x + a.y * b.y`.
    pub fn dot(a: Self, b: Self) -> (r: i64)
        requires
            i64::MIN <= a.x * b.x <= i64::MAX,
            i64::MIN <= a.y * b.y <= i64::MAX,
            i64::MIN <= a.x * b.x + a.y * b.y <= i64::MAX,
        ensures
            r == a.x * b.x + a.y * b.y,
    {
        a.x * b.x + a.y * b.y
    }

    /// Skew (cross) product: `a.x * b.y - a.y * b.x`.
    pub fn skew(a: Self, b: Self) -> (r: i64)
        requires
            i64::MIN <= a.x * b.y <= i64::MAX,
            i64::MIN <= a.y * b.x <= i64::MAX,
            i64::MIN <= a.x * b.y - a.y * b.x <= i64::MAX,
        ensures
            r == a.x * b.y - a.y * b.x,
    {
        a.x * b.y - a.y * b.x
    }

    /// Rotation by 90 degrees counter-clockwise: `(-y, x)`.
    pub fn rotate_90(self) -> (r: Self)
        requires
            self.y != i64::MIN,
        ensures
            r.x == -self.y,
            r.y == self.x,
    {
        vec2(-self.y, self.x)
    }

    /// Each coordinate clamped between those of `min` and `max`.
    pub fn clamp_min_max(self, min: Self, max: Self) -> (r: Self)
        ensures
            r.x == clamp_spec(self.x as int, min.x as int, max.x as int),
            r.y == clamp_spec(self.y as int, min.y as int, max.y as int),
    {
        vec2(clamp_scalar(self.x, min.x, max.x), clamp_scalar(self.y, min.y, max.y))
    }
}

} // verus!
