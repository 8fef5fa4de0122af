//! Rays: an origin point and a direction vector.
use vstd::prelude::*;
use crate::fixed::{Fx, one};
use crate::point_vector::{PointVector, tuple_add, tuple_scale};
use crate::matrix::{Matrix, mul_matrix_pointvector, grid_apply};

verus! {

#[derive(Clone, Copy, Debug)]
pub struct Ray {
    pub origin: PointVector,
    pub direction: PointVector,
}

/// Point reached after travelling `t` times the direction from the origin.
pub open spec fn ray_position(r: Ray, t: Fx) -> PointVector {
    tuple_add(r.origin, tuple_scale(r.direction, t))
}

/// Both ends of the ray multiplied by a 4-by-4 grid.
pub open spec fn ray_transformed(r: Ray, g: Seq<Seq<Fx>>) -> Ray {
    Ray { origin: grid_apply(g, r.origin), direction: grid_apply(g, r.direction) }
}

impl Ray {
    /// A ray from a point along a vector.
    pub fn new(origin: PointVector, direction: PointVector) -> (r: Ray)
        requires
            origin.w.raw == one(),
            direction.w.raw == 0,
        ensures
            r.origin == origin,
            r.direction == direction,
    {
        Ray { origin, direction }
    }

    pub fn position(&self, t: Fx) -> (r: PointVector)
        ensures
            r == ray_position(*self, t),
    {
        PointVector::add(&self.origin, &self.direction.multiply_scalar(t))
    }

    /// The ray with origin and direction each multiplied by `m`.
    pub fn transform(&self, m: &Matrix) -> (r: Ray)
        requires
            m.is_square(4),
        ensures
            r == ray_transformed(*self, m.cells()),
    {
        Ray {
            origin: mul_matrix_pointvector(m, &self.origin),
            direction: mul_matrix_pointvector(m, &self.direction),
        }
    }
}

} // verus!
