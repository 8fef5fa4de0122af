//! Builders for 4-by-4 affine transforms. Each starts from the identity and
//! overwrites a few cells; transforms compose by matrix multiplication, the
//! rightmost applied first.
//!
//! Rotations take the cosine and sine of the angle rather than the angle.
use vstd::prelude::*;
use crate::fixed::{Fx, fx_neg};
use crate::matrix::{Matrix, grid_identity};

verus! {

/// `g` with cell `(i, j)` replaced by `v`.
pub open spec fn set_cell(g: Seq<Seq<Fx>>, i: int, j: int, v: Fx) -> Seq<Seq<Fx>> {
    g.update(i, g[i].update(j, v))
}

pub open spec fn translation_grid(x: Fx, y: Fx, z: Fx) -> Seq<Seq<Fx>> {
    set_cell(set_cell(set_cell(grid_identity(4), 0, 3, x), 1, 3, y), 2, 3, z)
}

pub open spec fn scaling_grid(x: Fx, y: Fx, z: Fx) -> Seq<Seq<Fx>> {
    set_cell(set_cell(set_cell(grid_identity(4), 0, 0, x), 1, 1, y), 2, 2, z)
}

pub open spec fn rotation_x_grid(c: Fx, s: Fx) -> Seq<Seq<Fx>> {
    set_cell(set_cell(set_cell(set_cell(grid_identity(4), 1, 1, c), 1, 2, fx_neg(s)), 2, 1, s), 2, 2, c)
}

pub open spec fn rotation_y_grid(c: Fx, s: Fx) -> Seq<Seq<Fx>> {
    set_cell(set_cell(set_cell(set_cell(grid_identity(4), 0, 0, c), 2, 0, fx_neg(s)), 0, 2, s), 2, 2, c)
}

pub open spec fn rotation_z_grid(c: Fx, s: Fx) -> Seq<Seq<Fx>> {
    set_cell(set_cell(set_cell(set_cell(grid_identity(4), 0, 0, c), 0, 1, fx_neg(s)), 1, 0, s), 1, 1, c)
}

pub open spec fn shearing_grid(x_y: Fx, x_z: Fx, y_x: Fx, y_z: Fx, z_x: Fx, z_y: Fx) -> Seq<Seq<Fx>> {
    set_cell(
        set_cell(
            set_cell(
                set_cell(set_cell(set_cell(grid_identity(4), 0, 1, x_y), 0, 2, x_z), 1, 0, y_x),
                1,
                2,
                y_z,
            ),
            2,
            0,
            z_x,
        ),
        2,
        1,
        z_y,
    )
}

/// Moves points by `(x, y, z)`; vectors are left alone.
pub fn translate(x: Fx, y: Fx, z: Fx) -> (r: Matrix)
    ensures
        r.is_square(4),
        r.cells() == translation_grid(x, y, z),
{
    let mut m = Matrix::identity(4);
    m.set(0, 3, x);
    m.set(1, 3, y);
    m.set(2, 3, z);
    m
}

/// Scales each axis by its factor.
pub fn scaling(x: Fx, y: Fx, z: Fx) -> (r: Matrix)
    ensures
        r.is_square(4),
        r.cells() == scaling_grid(x, y, z),
{
    let mut m = Matrix::identity(4);
    m.set(0, 0, x);
    m.set(1, 1, y);
    m.set(2, 2, z);
    m
}

/// Rotation about the x axis by the angle whose cosine is `c` and sine `s`:
/// `(0, 1, 0)` goes to `(0, c, s)`.
pub fn rotation_x(c: Fx, s: Fx) -> (r: Matrix)
    ensures
        r.is_square(4),
        r.cells() == rotation_x_grid(c, s),
{
    let mut m = Matrix::identity(4);
    m.set(1, 1, c);
    m.set(1, 2, s.neg());
    m.set(2, 1, s);
    m.set(2, 2, c);
    m
}

/// Rotation about the y axis: `(0, 0, 1)` goes to `(s, 0, c)`.
pub fn rotation_y(c: Fx, s: Fx) -> (r: Matrix)
    ensures
        r.is_square(4),
        r.cells() == rotation_y_grid(c, s),
{
    let mut m = Matrix::identity(4);
    m.set(0, 0, c);
    m.set(2, 0, s.neg());
    m.set(0, 2, s);
    m.set(2, 2, c);
    m
}

/// Rotation about the z axis: `(0, 1, 0)` goes to `(-s, c, 0)`.
pub fn rotation_z(c: Fx, s: Fx) -> (r: Matrix)
    ensures
        r.is_square(4),
        r.cells() == rotation_z_grid(c, s),
{
    let mut m = Matrix::identity(4);
    m.set(0, 0, c);
    m.set(0, 1, s.neg());
    m.set(1, 0, s);
    m.set(1, 1, c);
    m
}

/// Shear: each coordinate moves in proportion to the two others.
pub fn shearing(x_y: Fx, x_z: Fx, y_x: Fx, y_z: Fx, z_x: Fx, z_y: Fx) -> (r: Matrix)
    ensures
        r.is_square(4),
        r.cells() == shearing_grid(x_y, x_z, y_x, y_z, z_x, z_y),
{
    let mut m = Matrix::identity(4);
    m.set(0, 1, x_y);
    m.set(0, 2, x_z);
    m.set(1, 0, y_x);
    m.set(1, 2, y_z);
    m.set(2, 0, z_x);
    m.set(2, 1, z_y);
    m
}

} // verus!
