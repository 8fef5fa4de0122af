//! A projectile under gravity and wind, advanced one tick at a time, and
//! the canvas pixel that shows it.
use vstd::prelude::*;
use crate::fixed::{Fx, one};
use crate::point_vector::{PointVector, tuple_add};

verus! {

pub struct Projectile {
    pub position: PointVector,
    pub velocity: PointVector,
}

pub struct Environment {
    pub gravity: PointVector,
    pub wind: PointVector,
}

impl Projectile {
    pub fn new(position: PointVector, velocity: PointVector) -> (r: Projectile)
        ensures
            r.position == position,
            r.velocity == velocity,
    {
        Projectile { position, velocity }
    }
}

impl Environment {
    pub fn new(gravity: PointVector, wind: PointVector) -> (r: Environment)
        ensures
            r.gravity == gravity,
            r.wind == wind,
    {
        Environment { gravity, wind }
    }
}

/// One step: the position moves by the velocity, and the velocity changes
/// by gravity and wind.
pub fn tick(e: &Environment, p: Projectile) -> (r: Projectile)
    ensures
        r.position == tuple_add(p.position, p.velocity),
        r.velocity == tuple_add(tuple_add(p.velocity, e.gravity), e.wind),
{
    let new_pos = PointVector::add(&p.position, &p.velocity);
    let new_velocity = PointVector::add(&PointVector::add(&p.velocity, &e.gravity), &e.wind);
    Projectile::new(new_pos, new_velocity)
}

/// A scalar rounded to the nearest whole number (halves up); negatives give 0.
pub open spec fn whole_part(v: Fx) -> int {
    if v.raw < 0 {
        0
    } else {
        (v.raw + one() / 2) / one()
    }
}

pub fn round_to_index(v: Fx) -> (r: usize)
    ensures
        r == whole_part(v),
{
    if v.raw < 0 {
        0
    } else {
        let w = (v.raw as u64 + 2147483648) / 4294967296;
        w as usize
    }
}

/// Column and row of the canvas pixel for a position: the row counts down
/// from the bottom edge, and a height above the canvas gives row `height`.
pub fn canvas_spot(height: usize, position: &PointVector) -> (r: (usize, usize))
    ensures
        r.0 == whole_part(position.x),
        r.1 == if whole_part(position.y) <= height { height - whole_part(position.y) } else { height as int },
{
    let projectile_height = round_to_index(position.y);
    let real_height = if projectile_height <= height {
        height - projectile_height
    } else {
        height
    };
    (round_to_index(position.x), real_height)
}

} // verus!
