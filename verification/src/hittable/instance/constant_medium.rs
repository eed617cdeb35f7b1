//! Fog: an object filled with a medium that scatters light.

use vstd::prelude::*;
use crate::basic::vec3::{RGBColor, Vec3};
use crate::basic::{Scalar, INFINITESIMAL, ONE};
use crate::bvh::aabb::AABB;
use crate::material::isotropic::Isotropic;
use crate::texture::solid_color::SolidColor;

verus! {

/// A medium of even density within the surface of `boundary`.
///
/// `neg_inv_density` is minus one over the density.
pub struct ConstantMedium<TH, TT> {
    pub boundary: TH,
    pub phase_function: Isotropic<TT>,
    pub neg_inv_density: Scalar,
}

/// The stretch of a ray within a medium, between `t_min` and `t_max` and
/// ahead of the ray's origin, from the parameters at which the ray enters
/// and leaves the boundary.
pub open spec fn stretch(entry: Scalar, exit: Scalar, t_min: Scalar, t_max: Scalar) -> (Scalar, Scalar) {
    let lo = if entry < t_min {
        t_min
    } else {
        entry
    };
    (
        if lo < 0 {
            0
        } else {
            lo
        },
        if exit > t_max {
            t_max
        } else {
            exit
        },
    )
}

impl<TH, TT> ConstantMedium<TH, TT> {
    /// The medium of density `d` within `boundary`, coloured by `albedo`.
    /// `neg_inv_density` is minus one over `d`; a medium of no density is none.
    pub fn new(boundary: TH, d: Scalar, neg_inv_density: Scalar, albedo: TT) -> (r: Self)
        requires
            d != 0,
        ensures
            r.boundary == boundary,
            r.neg_inv_density == neg_inv_density,
            r.phase_function.albedo == albedo,
    {
        Self { boundary, neg_inv_density, phase_function: Isotropic::new(albedo) }
    }

    /// Cuts the way of a ray through the medium down to the range asked
    /// for. The ray enters the boundary at parameter `entry` and leaves it at
    /// `exit`: what counts begins not before `t_min` nor behind the ray's
    /// origin, and ends not after `t_max`.
    pub fn clip(&self, entry: Scalar, exit: Scalar, t_min: Scalar, t_max: Scalar) -> (r: (Scalar, Scalar))
        ensures
            r == stretch(entry, exit, t_min, t_max),
    {
        let mut lo = entry;
        let mut hi = exit;
        if lo < t_min {
            lo = t_min;
        }
        if hi > t_max {
            hi = t_max;
        }
        if lo < 0 {
            lo = 0;
        }
        (lo, hi)
    }

    /// Whether nothing is left of the way of a ray through the medium: it
    /// would end before it begins, or its two ends are closer than
    /// [`INFINITESIMAL`]. `gap` is the parameter of the end less that of the
    /// beginning.
    pub fn collapsed(&self, lo: Scalar, hi: Scalar, gap: Scalar) -> (r: bool)
        ensures
            r == (lo > hi || -INFINITESIMAL < gap < INFINITESIMAL),
    {
        lo > hi || (-INFINITESIMAL < gap && gap < INFINITESIMAL)
    }

    /// Whether the ray is scattered within the medium. `hit_dis` is the
    /// distance that it flies freely, drawn for this ray; `dis_inside_bound`
    /// is the length of its way through the medium. It is scattered where
    /// it does not fly further than that.
    pub fn hit(&self, hit_dis: Scalar, dis_inside_bound: Scalar) -> (r: bool)
        ensures
            r == (hit_dis <= dis_inside_bound),
    {
        !(hit_dis > dis_inside_bound)
    }

    /// The normal of a hit within the medium. Fog has no surface: one
    /// direction stands for all.
    pub fn outward_normal(&self) -> (n: Vec3)
        ensures
            n == (Vec3 { x: ONE, y: 0, z: 0 }),
            n.wf(),
    {
        Vec3::new(ONE, 0, 0)
    }

    /// The box of the medium: that of its boundary.
    pub fn bounding_box(&self, boundary_box: Option<AABB>) -> (r: Option<AABB>)
        ensures
            r == boundary_box,
    {
        boundary_box
    }
}

impl<TH> ConstantMedium<TH, SolidColor> {
    /// The medium of density `d` and of one colour within `boundary`.
    /// `neg_inv_density` is minus one over `d`; a medium of no density is none.
    pub fn new_from_color(boundary: TH, d: Scalar, neg_inv_density: Scalar, color_value: RGBColor) -> (r: Self)
        requires
            d != 0,
        ensures
            r.boundary == boundary,
            r.neg_inv_density == neg_inv_density,
            r.phase_function.albedo.color_value == color_value,
    {
        Self { boundary, neg_inv_density, phase_function: Isotropic::new_from_color(color_value) }
    }
}

} // verus!
