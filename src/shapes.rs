//! Spheres: the unit sphere at the origin of object space, placed in the
//! world by a transform.
use vstd::prelude::*;
use crate::fixed::{Fx, fx, one, fx_close};
use crate::point_vector::{PointVector, point, tuple, tuple_sub, tuple_normalize, tuple_close};
use crate::matrix::{Matrix, grid_det, grid_identity, grid_inverse, grid_transpose, grid_apply, mul_matrix_pointvector};
use crate::material::{Material, is_default_material};

verus! {

pub trait Shape {}

#[derive(Debug)]
pub struct Sphere {
    pub center: PointVector,
    /// Object-to-world transform.
    pub transform: Matrix,
    pub material: Material,
    pub radius: Fx,
}

/// World-space normal at `p` on the unit sphere placed by the transform `g`:
/// `p` is taken to object space by the inverse, the normal there is
/// normalised, brought back by the inverse's transpose, made a vector and
/// normalised again.
pub open spec fn sphere_normal(g: Seq<Seq<Fx>>, p: PointVector) -> PointVector {
    let inv = grid_inverse(g);
    let object_point = grid_apply(inv, p);
    let object_normal = tuple_normalize(tuple_sub(object_point, tuple(fx(0), fx(0), fx(0), fx(one()))));
    let world_normal = grid_apply(grid_transpose(inv, 4, 4), object_normal);
    tuple_normalize(tuple(world_normal.x, world_normal.y, world_normal.z, fx(0)))
}

impl Sphere {
    pub open spec fn wf(&self) -> bool {
        self.transform.is_square(4)
    }

    /// The transform can be inverted.
    pub open spec fn placeable(&self) -> bool {
        self.wf() && grid_det(self.transform.cells()).raw != 0
    }

    /// The unit sphere at the origin, untransformed, with the default material.
    pub fn new() -> (r: Sphere)
        ensures
            r.wf(),
            r.center == tuple(fx(0), fx(0), fx(0), fx(one())),
            r.transform.cells() == grid_identity(4),
            is_default_material(r.material),
            r.radius.raw == one(),
    {
        Sphere {
            center: point(Fx::zero(), Fx::zero(), Fx::zero()),
            transform: Matrix::identity(4),
            material: Material::default(),
            radius: Fx::one(),
        }
    }

    pub fn set_transform(&mut self, m: &Matrix)
        requires
            m.wf(),
        ensures
            final(self).transform.wf(),
            final(self).transform.i_dim == m.i_dim,
            final(self).transform.j_dim == m.j_dim,
            final(self).transform.cells() == m.cells(),
            final(self).center == old(self).center,
            final(self).material == old(self).material,
            final(self).radius == old(self).radius,
    {
        self.transform = m.duplicate();
    }

    /// Surface normal at a world-space point, as a unit vector.
    pub fn normal_at(&self, world_point: PointVector) -> (r: PointVector)
        requires
            self.placeable(),
        ensures
            r == sphere_normal(self.transform.cells(), world_point),
    {
        let inv = self.transform.inverse();
        let object_point = mul_matrix_pointvector(&inv, &world_point);
        let origin = point(Fx::zero(), Fx::zero(), Fx::zero());
        let object_normal = PointVector::subtract(&object_point, &origin).normalize();
        let inv_t = inv.transpose();
        let mut world_normal = mul_matrix_pointvector(&inv_t, &object_normal);
        world_normal.w = Fx::zero();
        world_normal.normalize()
    }
}

impl Shape for Sphere {}

impl PartialEq for Sphere {
    fn eq(&self, other: &Self) -> (r: bool) {
        crate::fixed::compare_float(&self.radius, &other.radius) && self.center == other.center
    }
}

impl vstd::std_specs::cmp::PartialEqSpecImpl for Sphere {
    open spec fn obeys_eq_spec() -> bool {
        true
    }

    /// Spheres compare by radius and center only.
    open spec fn eq_spec(&self, other: &Sphere) -> bool {
        fx_close(self.radius, other.radius) && tuple_close(self.center, other.center)
    }
}

} // verus!
