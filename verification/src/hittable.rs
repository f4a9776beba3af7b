//! The intersection protocol: any surface can be asked for the nearest valid
//! hit of a ray within a search interval.

use vstd::prelude::*;

verus! {

use crate::fixed::Fx;
use crate::interval::Interval;
use crate::material::Material;
use crate::ray::Ray;
use crate::vec3::{Point3, Vec3, sdot, sneg};

/// The outcome of a successful intersection test: where the ray hit, the
/// surface normal there (unit length, pointing against the ray), the
/// surface's material, the ray parameter, and which side was hit.
#[derive(Clone, Copy)]
pub struct HitRecord {
    pub point: Point3,
    pub normal: Vec3,
    pub material: Material,
    pub t: Fx,
    pub front_face: bool,
}

/// The facing convention: the stored normal always points against the
/// incoming ray; `front_face` records whether that is the outward side.
pub open spec fn spec_face_normal(rec: HitRecord, r: Ray, outward_normal: Vec3) -> HitRecord {
    let ff = sdot(r.dir, outward_normal) < 0;
    HitRecord {
        normal: if ff {
            outward_normal
        } else {
            sneg(outward_normal)
        },
        front_face: ff,
        ..rec
    }
}

impl HitRecord {
    /// An empty record, to be filled by an intersection test.
    pub fn new() -> (r: Self)
        ensures
            r.point == crate::vec3::sv(0, 0, 0),
            r.normal == crate::vec3::sv(0, 0, 0),
            r.t@ == 0,
            r.front_face == false,
    {
        Self {
            point: Point3::new(),
            normal: Vec3::new(),
            material: Material::default(),
            t: Fx::zero(),
            front_face: false,
        }
    }

    /// Stores the facing flag and the against-the-ray normal derived from a
    /// geometric outward normal.
    pub fn set_face_normal(&mut self, r: &Ray, outward_normal: &Vec3)
        ensures
            *final(self) == spec_face_normal(*old(self), *r, *outward_normal),
    {
        self.front_face = Vec3::dot(&r.direction(), outward_normal).lt(Fx::zero());
        self.normal = if self.front_face {
            outward_normal.clone()
        } else {
            outward_normal.neg()
        };
    }
}

/// The intersection capability: report the nearest valid hit of `r` within
/// the strict interior of `ray_t`, filling `rec` exactly on success.
pub trait Hittable {
    /// The hit this surface reports for a ray and search interval, if any.
    spec fn spec_hit(&self, r: Ray, ray_t: Interval) -> Option<HitRecord>;

    /// Tests `r` against this surface; on a hit fills `rec` and returns true,
    /// otherwise leaves `rec` unchanged and returns false.
    fn hit(&self, r: &Ray, ray_t: &Interval, rec: &mut HitRecord) -> (b: bool)
        ensures
            ({
                let h = self.spec_hit(*r, *ray_t);
                b == h is Some && *final(rec) == if b {
                    h.unwrap()
                } else {
                    *old(rec)
                }
            }),
    ;
}

} // verus!
