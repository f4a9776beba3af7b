//! A ray: an origin point and a direction vector, parameterized by a scalar
//! `t`. The direction need not be normalized.

use vstd::prelude::*;

verus! {

use crate::fixed::Fx;
use crate::vec3::{Point3, Vec3, sadd, smul};

/// A half-infinite line `origin + t * direction`.
#[derive(Clone, Copy, PartialEq, Eq, Structural, Debug)]
pub struct Ray {
    pub origin: Point3,
    pub dir: Vec3,
}

/// The point a ray reaches at parameter `t`.
pub open spec fn ray_at(r: Ray, t: int) -> Point3 {
    sadd(r.origin, smul(r.dir, t))
}

impl Ray {
    /// The ray starting at `origin` toward `dir`.
    pub fn new(origin: &Point3, dir: &Vec3) -> (r: Self)
        ensures
            r.origin == *origin,
            r.dir == *dir,
    {
        Ray { origin: *origin, dir: *dir }
    }

    /// The ray's origin.
    pub fn origin(&self) -> (r: Point3)
        ensures
            r == self.origin,
    {
        self.origin
    }

    /// The ray's direction.
    pub fn direction(&self) -> (r: Vec3)
        ensures
            r == self.dir,
    {
        self.dir
    }

    /// The point at parameter `t` along the ray.
    pub fn at(&self, t: Fx) -> (r: Point3)
        ensures
            r == ray_at(*self, t@),
    {
        self.origin().add(self.direction().mul(t))
    }
}

} // verus!
