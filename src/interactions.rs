//! Ray-sphere intersection, choice of the visible hit, and Phong lighting.
use vstd::prelude::*;
use crate::fixed::{Fx, fx, one, fx_add, fx_sub, fx_neg, fx_mul, fx_div, fx_sqrt, fx_pow, fx_close};
use crate::point_vector::{PointVector, tuple_close, tuple_sub, tuple_dot, tuple_normalize, tuple_neg, tuple_reflect, reflect};
use crate::color::{Color, rgb, color_add, color_scale, color_hadamard};
use crate::matrix::grid_inverse;
use crate::ray::{Ray, ray_transformed};
use crate::shapes::Sphere;
use crate::material::Material;
use crate::point_light::PointLight;

verus! {

broadcast use vstd::seq_lib::group_to_multiset_ensures, vstd::multiset::group_multiset_properties;

/// A crossing of a ray with a sphere at parameter `t`.
#[derive(Clone, Copy, Debug)]
pub struct Intersection<'a> {
    pub t: Fx,
    pub obj: &'a Sphere,
}

/// The intersections of one or more rays, in the order they were produced.
pub struct Intersections<'a> {
    pub v: Vec<Intersection<'a>>,
}

/// The coefficients `(a, b, c)` of the quadratic in `t` for a ray already
/// carried into object space.
pub open spec fn quadratic(r: Ray, center: PointVector) -> (Fx, Fx, Fx) {
    let sphere_to_ray = tuple_sub(r.origin, center);
    (
        tuple_dot(r.direction, r.direction),
        fx_mul(fx(2 * one()), tuple_dot(r.direction, sphere_to_ray)),
        fx_sub(tuple_dot(sphere_to_ray, sphere_to_ray), fx(one())),
    )
}

/// The roots of the quadratic, smaller first; none when the discriminant
/// is negative or the direction has length zero.
pub open spec fn roots(a: Fx, b: Fx, c: Fx) -> Option<(Fx, Fx)> {
    let discriminant = fx_sub(fx_mul(b, b), fx_mul(fx_mul(fx(4 * one()), a), c));
    let denominator = fx_mul(fx(2 * one()), a);
    if discriminant.raw < 0 || denominator.raw == 0 {
        None
    } else {
        let root = fx_sqrt(discriminant);
        let t1 = fx_div(fx_sub(fx_neg(b), root), denominator);
        let t2 = fx_div(fx_add(fx_neg(b), root), denominator);
        if t1.raw <= t2.raw {
            Some((t1, t2))
        } else {
            Some((t2, t1))
        }
    }
}

/// Where a world-space ray meets a sphere with transform `g` and center `center`.
pub open spec fn sphere_hits(g: Seq<Seq<Fx>>, center: PointVector, r: Ray) -> Option<(Fx, Fx)> {
    let (a, b, c) = quadratic(ray_transformed(r, grid_inverse(g)), center);
    roots(a, b, c)
}

/// Record `k` has the smallest non-negative `t` of all.
pub open spec fn is_hit(v: Seq<Intersection>, k: int) -> bool {
    &&& 0 <= k < v.len()
    &&& v[k].t.raw >= 0
    &&& forall|i: int| 0 <= i < v.len() && (#[trigger] v[i]).t.raw >= 0 ==> v[k].t.raw <= v[i].t.raw
}

pub open spec fn sorted_by_t(v: Seq<Intersection>) -> bool {
    forall|i: int, j: int| 0 <= i < j < v.len() ==> (#[trigger] v[i]).t.raw <= (#[trigger] v[j]).t.raw
}

pub open spec fn black() -> Color {
    rgb(fx(0), fx(0), fx(0))
}

/// Phong shading: ambient, plus diffuse and specular terms when the light
/// falls on the front of the surface (and, for the specular term, when the
/// reflection points toward the eye).
pub open spec fn phong(m: Material, light: PointLight, position: PointVector, eyev: PointVector, normalv: PointVector) -> Color {
    let effective_color = color_hadamard(m.color, light.intensity);
    let ambient = color_scale(effective_color, m.ambient);
    let light_vector = tuple_normalize(tuple_sub(light.position, position));
    let cos_light_normal = tuple_dot(light_vector, normalv);
    if cos_light_normal.raw < 0 {
        color_add(color_add(ambient, black()), black())
    } else {
        let diffuse = color_scale(color_scale(effective_color, m.diffuse), cos_light_normal);
        let reflect_vector = tuple_reflect(tuple_neg(light_vector), normalv);
        let cos_reflect_eye = tuple_dot(reflect_vector, eyev);
        let specular = if cos_reflect_eye.raw <= 0 {
            black()
        } else {
            color_scale(color_scale(light.intensity, m.specular), fx_pow(cos_reflect_eye, m.shininess as nat))
        };
        color_add(color_add(ambient, diffuse), specular)
    }
}

impl<'a> Intersection<'a> {
    pub fn new(t: Fx, obj: &'a Sphere) -> (r: Intersection<'a>)
        ensures
            r.t == t,
            r.obj == obj,
    {
        Intersection { t, obj }
    }
}

impl<'a> Intersections<'a> {
    pub fn new(v: Vec<Intersection<'a>>) -> (r: Intersections<'a>)
        ensures
            r.v@ == v@,
    {
        Intersections { v }
    }

    pub fn new_from_intersect(s: &'a Sphere, r: &Ray) -> (xs: Intersections<'a>)
        requires
            s.placeable(),
        ensures
            match sphere_hits(s.transform.cells(), s.center, *r) {
                None => xs.v@.len() == 0,
                Some((t1, t2)) => xs.v@.len() == 2 && xs.v@[0].t == t1 && xs.v@[1].t == t2
                    && xs.v@[0].obj == s && xs.v@[1].obj == s,
            },
    {
        Self::new(intersect(s, r))
    }

    pub fn get_intersections_vector(&self) -> (r: &Vec<Intersection<'a>>)
        ensures
            r@ == self.v@,
    {
        &self.v
    }

    /// Orders the records by increasing `t`.
    pub fn sort(&mut self)
        ensures
            sorted_by_t(final(self).v@),
            final(self).v@.to_multiset() == old(self).v@.to_multiset(),
    {
        let n = self.v.len();
        let mut i: usize = 1;
        if n == 0 {
            return;
        }
        while i < n
            invariant
                1 <= i <= n == self.v@.len(),
                sorted_by_t(self.v@.subrange(0, i as int)),
                self.v@.to_multiset() == old(self).v@.to_multiset(),
            decreases n - i,
        {
            let mut j: usize = i;
            proof {
                assert forall|a: int, b: int| 0 <= a < b < i implies (#[trigger] self.v@[a]).t.raw
                    <= (#[trigger] self.v@[b]).t.raw by {
                    let s = self.v@.subrange(0, i as int);
                    assert(s[a] == self.v@[a] && s[b] == self.v@[b]);
                }
            }
            while j > 0 && self.v[j - 1].t.raw > self.v[j].t.raw
                invariant
                    1 <= i < n == self.v@.len(),
                    j <= i,
                    self.v@.to_multiset() == old(self).v@.to_multiset(),
                    forall|a: int, b: int| 0 <= a < b <= i && b != j ==> (#[trigger] self.v@[a]).t.raw <= (#[trigger] self.v@[b]).t.raw,
                    j < i ==> forall|a: int| 0 <= a < j ==> (#[trigger] self.v@[a]).t.raw <= self.v@[j + 1].t.raw,
                decreases j,
            {
                let ghost before = self.v@;
                let left = self.v[j - 1];
                let right = self.v[j];
                self.v.set(j - 1, right);
                self.v.set(j, left);
                proof {
                    let mid = before.update(j - 1, right);
                    assert(mid.to_multiset() == before.to_multiset().insert(right).remove(left));
                    assert(self.v@ == mid.update(j as int, left));
                    assert(self.v@.to_multiset() == mid.to_multiset().insert(left).remove(mid[j as int]));
                    assert(mid[j as int] == right);
                    assert(self.v@.to_multiset() =~= before.to_multiset());
                }
                j = j - 1;
            }
            proof {
                assert forall|a: int, b: int| 0 <= a < b <= i implies (#[trigger] self.v@[a]).t.raw
                    <= (#[trigger] self.v@[b]).t.raw by {
                    if b == j && j < i {
                        assert(self.v@[a].t.raw <= self.v@[j + 1].t.raw);
                        assert(self.v@[j as int].t.raw <= self.v@[j + 1].t.raw);
                    }
                }
            }
            i = i + 1;
            assert(sorted_by_t(self.v@.subrange(0, i as int)));
        }
        assert(self.v@.subrange(0, n as int) =~= self.v@);
    }

    /// The visible hit: the record with the smallest non-negative `t`, the
    /// first such on ties; none when every `t` is negative or there are no records.
    pub fn hit(self) -> (r: Option<Intersection<'a>>)
        ensures
            r is None <==> forall|i: int| 0 <= i < self.v@.len() ==> (#[trigger] self.v@[i]).t.raw < 0,
            r matches Some(h) ==> exists|k: int| is_hit(self.v@, k) && #[trigger] self.v@[k] == h,
    {
        let mut best: Option<Intersection<'a>> = None;
        let ghost mut best_index: int = -1;
        let mut i: usize = 0;
        while i < self.v.len()
            invariant
                i <= self.v@.len(),
                best is None ==> forall|k: int| 0 <= k < i ==> (#[trigger] self.v@[k]).t.raw < 0,
                best matches Some(h) ==> 0 <= best_index < i && self.v@[best_index] == h && h.t.raw >= 0
                    && forall|k: int| 0 <= k < i && (#[trigger] self.v@[k]).t.raw >= 0 ==> h.t.raw <= self.v@[k].t.raw,
            decreases self.v@.len() - i,
        {
            let candidate = self.v[i];
            if candidate.t.raw >= 0 {
                let better = match best {
                    None => true,
                    Some(h) => candidate.t.raw < h.t.raw,
                };
                if better {
                    best = Some(candidate);
                    proof {
                        best_index = i as int;
                    }
                }
            }
            i = i + 1;
        }
        proof {
            if best is Some {
                assert(is_hit(self.v@, best_index));
            }
        }
        best
    }
}

/// Where a ray meets a sphere: the ray is carried into the sphere's object
/// space by the inverse transform and the unit-sphere quadratic solved there.
/// Two records, smaller `t` first, or none.
pub fn intersect<'a>(s: &'a Sphere, r: &Ray) -> (xs: Vec<Intersection<'a>>)
    requires
        s.placeable(),
    ensures
        match sphere_hits(s.transform.cells(), s.center, *r) {
            None => xs@.len() == 0,
            Some((t1, t2)) => xs@.len() == 2 && xs@[0].t == t1 && xs@[1].t == t2 && xs@[0].obj == s
                && xs@[1].obj == s,
        },
{
    let inv = s.transform.inverse();
    let object_ray = r.transform(&inv);
    let sphere_to_ray = PointVector::subtract(&object_ray.origin, &s.center);
    let two = Fx::from_int(2);
    let a = object_ray.direction.dot(&object_ray.direction);
    let b = two.mul(object_ray.direction.dot(&sphere_to_ray));
    let c = sphere_to_ray.dot(&sphere_to_ray).sub(Fx::one());
    let discriminant = b.mul(b).sub(Fx::from_int(4).mul(a).mul(c));
    let denominator = two.mul(a);
    if discriminant.raw < 0 || denominator.raw == 0 {
        Vec::new()
    } else {
        let root = discriminant.sqrt();
        let t1 = b.neg().sub(root).div(denominator);
        let t2 = b.neg().add(root).div(denominator);
        let mut xs: Vec<Intersection<'a>> = Vec::new();
        if t1.raw <= t2.raw {
            xs.push(Intersection::new(t1, s));
            xs.push(Intersection::new(t2, s));
        } else {
            xs.push(Intersection::new(t2, s));
            xs.push(Intersection::new(t1, s));
        }
        xs
    }
}

/// Phong shading of a point of a surface with material `m`, lit by `light`,
/// seen along `eyev`, with surface normal `normalv`. No clamping.
pub fn lighting(m: Material, light: PointLight, position: PointVector, eyev: PointVector, normalv: PointVector) -> (r: Color)
    ensures
        r == phong(m, light, position, eyev, normalv),
{
    let effective_color = m.color.hadamard_product(&light.intensity);
    let ambient = effective_color.multiply_scalar(m.ambient);
    let light_vector = PointVector::subtract(&light.position, &position).normalize();
    let cos_light_normal = light_vector.dot(&normalv);
    let diffuse: Color;
    let specular: Color;
    if cos_light_normal.raw < 0 {
        diffuse = Color::black();
        specular = Color::black();
    } else {
        diffuse = effective_color.multiply_scalar(m.diffuse).multiply_scalar(cos_light_normal);
        let reflect_vector = reflect(light_vector.negate(), normalv);
        let cos_reflect_eye = reflect_vector.dot(&eyev);
        if cos_reflect_eye.raw <= 0 {
            specular = Color::black();
        } else {
            specular = light.intensity.multiply_scalar(m.specular).multiply_scalar(cos_reflect_eye.powi(m.shininess));
        }
    }
    ambient.add(&diffuse).add(&specular)
}

impl PartialEq for Intersection<'_> {
    fn eq(&self, other: &Self) -> (r: bool) {
        crate::fixed::compare_float(&self.t, &other.t) && *self.obj == *other.obj
    }
}

impl vstd::std_specs::cmp::PartialEqSpecImpl for Intersection<'_> {
    open spec fn obeys_eq_spec() -> bool {
        true
    }

    /// Close `t` and equal spheres.
    open spec fn eq_spec(&self, other: &Intersection) -> bool {
        fx_close(self.t, other.t) && fx_close(self.obj.radius, other.obj.radius)
            && tuple_close(self.obj.center, other.obj.center)
    }
}

} // verus!
