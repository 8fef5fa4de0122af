//! Surface properties for the Phong model.
use vstd::prelude::*;
use crate::fixed::{Fx, fx_close, compare_float, one};
use crate::color::{Color, color_close};

verus! {

/// Raw value of 0.1.
pub const DEFAULT_AMBIENT_RAW: i64 = 429496730;

/// Raw value of 0.9.
pub const DEFAULT_DIFFUSE_RAW: i64 = 3865470566;

/// Raw value of 0.9.
pub const DEFAULT_SPECULAR_RAW: i64 = 3865470566;

pub const DEFAULT_SHININESS: u32 = 200;

#[derive(Clone, Copy, Debug)]
pub struct Material {
    pub color: Color,
    pub ambient: Fx,
    pub diffuse: Fx,
    pub specular: Fx,
    /// Exponent of the specular term.
    pub shininess: u32,
}

/// White, ambient 0.1, diffuse 0.9, specular 0.9, shininess 200.
pub open spec fn is_default_material(m: Material) -> bool {
    &&& m.color.red.raw == one() && m.color.green.raw == one() && m.color.blue.raw == one()
    &&& m.ambient.raw == DEFAULT_AMBIENT_RAW
    &&& m.diffuse.raw == DEFAULT_DIFFUSE_RAW
    &&& m.specular.raw == DEFAULT_SPECULAR_RAW
    &&& m.shininess == DEFAULT_SHININESS
}

pub open spec fn material_close(a: Material, b: Material) -> bool {
    &&& color_close(a.color, b.color)
    &&& fx_close(a.ambient, b.ambient)
    &&& fx_close(a.diffuse, b.diffuse)
    &&& fx_close(a.specular, b.specular)
    &&& a.shininess == b.shininess
}

impl Default for Material {
    fn default() -> (r: Material)
        ensures
            is_default_material(r),
    {
        Material {
            color: Color::new(Fx::one(), Fx::one(), Fx::one()),
            ambient: Fx::from_raw(DEFAULT_AMBIENT_RAW),
            diffuse: Fx::from_raw(DEFAULT_DIFFUSE_RAW),
            specular: Fx::from_raw(DEFAULT_SPECULAR_RAW),
            shininess: DEFAULT_SHININESS,
        }
    }
}

impl PartialEq for Material {
    fn eq(&self, other: &Self) -> (r: bool) {
        self.color == other.color && compare_float(&self.ambient, &other.ambient)
            && compare_float(&self.diffuse, &other.diffuse) && compare_float(&self.specular, &other.specular)
            && self.shininess == other.shininess
    }
}

impl vstd::std_specs::cmp::PartialEqSpecImpl for Material {
    open spec fn obeys_eq_spec() -> bool {
        true
    }

    open spec fn eq_spec(&self, other: &Material) -> bool {
        material_close(*self, *other)
    }
}

} // verus!
