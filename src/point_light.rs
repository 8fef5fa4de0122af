//! A point light: a position and an intensity.
use vstd::prelude::*;
use crate::point_vector::PointVector;
use crate::color::Color;

verus! {

#[derive(Clone, Copy, Debug)]
pub struct PointLight {
    pub intensity: Color,
    pub position: PointVector,
}

impl PointLight {
    pub fn new(position: PointVector, intensity: Color) -> (r: PointLight)
        ensures
            r.position == position,
            r.intensity == intensity,
    {
        PointLight { intensity, position }
    }
}

} // verus!
