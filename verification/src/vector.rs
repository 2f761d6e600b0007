//! Free vectors over exact coordinates, used inside orientation reasoning.

use vstd::prelude::*;

verus! {

use crate::point::{Point2d, Point3d};
use crate::rat::{Rat, rat_sub, rat_mul, rat_add};
use crate::segment::rat_cross_spec;

/// A free planar vector with exact rational components.
#[derive(Clone, Copy, Debug)]
pub struct Vector2d {
    pub x: Rat,
    pub y: Rat,
}

/// The exact dot product of two planar vectors, or `None` when a value
/// leaves the coordinate range.
pub open spec fn dot2_spec(a: Vector2d, b: Vector2d) -> Option<Rat> {
    match rat_mul(a.x, b.x) {
        None => None,
        Some(mx) => match rat_mul(a.y, b.y) {
            None => None,
            Some(my) => rat_add(mx, my),
        },
    }
}

impl Vector2d {
    /// Both components are well-formed.
    pub open spec fn wf(self) -> bool {
        self.x.wf() && self.y.wf()
    }

    /// The vector `(x, y)`.
    pub fn from_coordinates(x: Rat, y: Rat) -> (r: Vector2d)
        ensures
            r.x == x,
            r.y == y,
    {
        Vector2d { x, y }
    }

    /// The displacement from `start` to `end`, or `None` when a component
    /// leaves the coordinate range.
    pub fn from_points(start: &Point2d, end: &Point2d) -> (r: Option<Vector2d>)
        requires
            start.wf(),
            end.wf(),
        ensures
            match (rat_sub(end.x, start.x), rat_sub(end.y, start.y)) {
                (Some(x), Some(y)) => r matches Some(v) && v == (Vector2d { x, y }) && v.wf(),
                _ => r is None,
            },
    {
        match (end.x.sub(&start.x), end.y.sub(&start.y)) {
            (Some(x), Some(y)) => Some(Vector2d { x, y }),
            _ => None,
        }
    }

    /// The exact dot product with `vector`.
    pub fn dot(&self, vector: &Vector2d) -> (r: Option<Rat>)
        requires
            self.wf(),
            vector.wf(),
        ensures
            r == dot2_spec(*self, *vector),
            r matches Some(v) ==> v.wf(),
    {
        match self.x.mul(&vector.x) {
            None => None,
            Some(mx) => match self.y.mul(&vector.y) {
                None => None,
                Some(my) => mx.add(&my),
            },
        }
    }

    /// The exact squared length.
    pub fn norm_sq(&self) -> (r: Option<Rat>)
        requires
            self.wf(),
        ensures
            r == dot2_spec(*self, *self),
            r matches Some(v) ==> v.wf(),
    {
        let other = *self;
        self.dot(&other)
    }

    /// The exact difference `self - other`, componentwise.
    pub fn sub(&self, other: &Vector2d) -> (r: Option<Vector2d>)
        requires
            self.wf(),
            other.wf(),
        ensures
            match (rat_sub(self.x, other.x), rat_sub(self.y, other.y)) {
                (Some(x), Some(y)) => r matches Some(v) && v == (Vector2d { x, y }) && v.wf(),
                _ => r is None,
            },
    {
        match (self.x.sub(&other.x), self.y.sub(&other.y)) {
            (Some(x), Some(y)) => Some(Vector2d { x, y }),
            _ => None,
        }
    }
}

/// A free spatial vector with exact rational components.
#[derive(Clone, Copy, Debug)]
pub struct Vector3d {
    pub x: Rat,
    pub y: Rat,
    pub z: Rat,
}

/// The exact dot product of two spatial vectors, or `None` when a value
/// leaves the coordinate range.
pub open spec fn dot3_spec(a: Vector3d, b: Vector3d) -> Option<Rat> {
    match rat_mul(a.x, b.x) {
        None => None,
        Some(mx) => match rat_mul(a.y, b.y) {
            None => None,
            Some(my) => match rat_mul(a.z, b.z) {
                None => None,
                Some(mz) => match rat_add(mx, my) {
                    None => None,
                    Some(mxy) => rat_add(mxy, mz),
                },
            },
        },
    }
}

impl Vector3d {
    /// All three components are well-formed.
    pub open spec fn wf(self) -> bool {
        self.x.wf() && self.y.wf() && self.z.wf()
    }

    /// The vector `(x, y, z)`.
    pub fn from_coordinates(x: Rat, y: Rat, z: Rat) -> (r: Vector3d)
        ensures
            r.x == x,
            r.y == y,
            r.z == z,
    {
        Vector3d { x, y, z }
    }

    /// The displacement from `start` to `end`, or `None` when a component
    /// leaves the coordinate range.
    pub fn from_points(start: &Point3d, end: &Point3d) -> (r: Option<Vector3d>)
        requires
            start.x.wf(),
            start.y.wf(),
            start.z.wf(),
            end.x.wf(),
            end.y.wf(),
            end.z.wf(),
        ensures
            match (rat_sub(end.x, start.x), rat_sub(end.y, start.y), rat_sub(end.z, start.z)) {
                (Some(x), Some(y), Some(z)) => r matches Some(v) && v == (Vector3d { x, y, z })
                    && v.wf(),
                _ => r is None,
            },
    {
        match (end.x.sub(&start.x), end.y.sub(&start.y), end.z.sub(&start.z)) {
            (Some(x), Some(y), Some(z)) => Some(Vector3d { x, y, z }),
            _ => None,
        }
    }

    /// The unit vector along the third axis.
    pub fn z() -> (r: Vector3d)
        ensures
            r.wf(),
            r.x.num == 0 && r.y.num == 0 && r.z.num == 1,
            r.x.den == 1 && r.y.den == 1 && r.z.den == 1,
    {
        Vector3d {
            x: Rat::from_int(0),
            y: Rat::from_int(0),
            z: Rat::from_int(1),
        }
    }

    /// The exact cross product with `along`, componentwise by the familiar
    /// determinant formula.
    pub fn curl(&self, along: &Vector3d) -> (r: Option<Vector3d>)
        requires
            self.wf(),
            along.wf(),
        ensures
            match (
                rat_cross_spec(self.y, self.z, along.y, along.z),
                rat_cross_spec(self.z, self.x, along.z, along.x),
                rat_cross_spec(self.x, self.y, along.x, along.y),
            ) {
                (Some(x), Some(y), Some(z)) => r matches Some(v) && v == (Vector3d { x, y, z })
                    && v.wf(),
                _ => r is None,
            },
    {
        let x = match Self::cross_component(&self.y, &self.z, &along.y, &along.z) {
            None => { return None },
            Some(v) => v,
        };
        let y = match Self::cross_component(&self.z, &self.x, &along.z, &along.x) {
            None => { return None },
            Some(v) => v,
        };
        let z = match Self::cross_component(&self.x, &self.y, &along.x, &along.y) {
            None => { return None },
            Some(v) => v,
        };
        Some(Vector3d { x, y, z })
    }

    /// One component of a cross product: `a1 * b2 - a2 * b1`.
    fn cross_component(a1: &Rat, a2: &Rat, b1: &Rat, b2: &Rat) -> (r: Option<Rat>)
        requires
            a1.wf(),
            a2.wf(),
            b1.wf(),
            b2.wf(),
        ensures
            r == rat_cross_spec(*a1, *a2, *b1, *b2),
            r matches Some(v) ==> v.wf(),
    {
        match a1.mul(b2) {
            None => None,
            Some(m1) => match a2.mul(b1) {
                None => None,
                Some(m2) => m1.sub(&m2),
            },
        }
    }

    /// The exact dot product with `vector`.
    pub fn dot(&self, vector: &Vector3d) -> (r: Option<Rat>)
        requires
            self.wf(),
            vector.wf(),
        ensures
            r == dot3_spec(*self, *vector),
            r matches Some(v) ==> v.wf(),
    {
        let mx = match self.x.mul(&vector.x) {
            None => { return None },
            Some(v) => v,
        };
        let my = match self.y.mul(&vector.y) {
            None => { return None },
            Some(v) => v,
        };
        let mz = match self.z.mul(&vector.z) {
            None => { return None },
            Some(v) => v,
        };
        let mxy = match mx.add(&my) {
            None => { return None },
            Some(v) => v,
        };
        mxy.add(&mz)
    }

    /// The exact squared length.
    pub fn norm_sq(&self) -> (r: Option<Rat>)
        requires
            self.wf(),
        ensures
            r == dot3_spec(*self, *self),
            r matches Some(v) ==> v.wf(),
    {
        let other = *self;
        self.dot(&other)
    }

    /// The exact negation, componentwise.
    pub fn neg(&self) -> (r: Vector3d)
        requires
            self.wf(),
        ensures
            r.wf(),
            r.x.num as int == -(self.x.num as int) && r.x.den == self.x.den,
            r.y.num as int == -(self.y.num as int) && r.y.den == self.y.den,
            r.z.num as int == -(self.z.num as int) && r.z.den == self.z.den,
    {
        Vector3d { x: self.x.neg(), y: self.y.neg(), z: self.z.neg() }
    }
}

} // verus!
