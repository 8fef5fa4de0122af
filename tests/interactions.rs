use raytracer::color::Color;
use raytracer::fixed::Fx;
use raytracer::interactions::{intersect, lighting, Intersection, Intersections};
use raytracer::material::Material;
use raytracer::point_light::PointLight;
use raytracer::point_vector::{point, vector, PointVector};
use raytracer::ray::Ray;
use raytracer::shapes::Sphere;
use raytracer::transformations;

fn f(v: f64) -> Fx {
    Fx::from_raw((v * 4294967296.0).round() as i64)
}

fn pt(x: f64, y: f64, z: f64) -> PointVector {
    point(f(x), f(y), f(z))
}

fn vc(x: f64, y: f64, z: f64) -> PointVector {
    vector(f(x), f(y), f(z))
}

fn c(r: f64, g: f64, b: f64) -> Color {
    Color::new(f(r), f(g), f(b))
}

#[test]
fn test_intersect_1() {
    let r = Ray::new(pt(0.0, 0.0, -5.0), vc(0.0, 0.0, 1.0));
    let s = Sphere::new();
    let xs = intersect(&s, &r);
    assert_eq!(xs.len(), 2);
    assert_eq!(xs[0].t, f(4.0));
    assert_eq!(xs[1].t, f(6.0));
}

#[test]
fn test_intersect_2() {
    let r = Ray::new(pt(0.0, 1.0, -5.0), vc(0.0, 0.0, 1.0));
    let s = Sphere::new();
    let xs = intersect(&s, &r);
    assert_eq!(xs.len(), 2);
    assert_eq!(xs[0].t, f(5.0));
    assert_eq!(xs[1].t, f(5.0));
}

#[test]
fn test_intersect_3() {
    let r = Ray::new(pt(0.0, 3.0, -5.0), vc(0.0, 0.0, 1.0));
    let s = Sphere::new();
    let xs = intersect(&s, &r);
    assert_eq!(xs.len(), 0);
}

#[test]
fn test_intersect_4() {
    let r = Ray::new(pt(0.0, 0.0, 0.0), vc(0.0, 0.0, 1.0));
    let s = Sphere::new();
    let xs = intersect(&s, &r);
    println!("{:?}", xs);
    assert_eq!(xs.len(), 2);
    assert_eq!(xs[0].t, f(-1.0));
    assert_eq!(xs[1].t, f(1.0));
}

#[test]
fn test_intersect_5() {
    let r = Ray::new(pt(0.0, 0.0, 5.0), vc(0.0, 0.0, 1.0));
    let s = Sphere::new();
    let xs = intersect(&s, &r);
    assert_eq!(xs.len(), 2);
    assert_eq!(xs[0].t, f(-6.0));
    assert_eq!(xs[1].t, f(-4.0));
}

#[test]
fn test_intersect_6() {
    let r = Ray::new(pt(0.0, 0.0, 5.0), vc(0.0, 0.0, 1.0));
    let s = Sphere::new();
    let xs = intersect(&s, &r);
    assert_eq!(xs.len(), 2);
    assert_eq!(*xs[0].obj, s);
    assert_eq!(*xs[1].obj, s);
    assert_eq!(std::ptr::eq(xs[0].obj, &s), true);
}

#[test]
fn test_intersection_new() {
    let t = f(3.5);
    let s = Sphere::new();
    let mut s2 = Sphere::new();
    s2.center = pt(1.0, 1.0, 1.0);
    let i = Intersection::new(t, &s);
    assert_eq!(i.t, t);
    assert_eq!(*i.obj, s);
    assert_ne!(*i.obj, s2);
}

#[test]
fn test_intersections() {
    let s = Sphere::new();
    let i1 = Intersection::new(f(1.0), &s);
    let i2 = Intersection::new(f(2.0), &s);
    let xs = vec![i1, i2];
    assert_eq!(xs.len(), 2);
    assert_eq!(xs[0].t, f(1.0));
    assert_eq!(xs[1].t, f(2.0));
}

#[test]
fn test_intersections2() {
    let s = Sphere::new();
    let i1 = Intersection::new(f(1.0), &s);
    let i2 = Intersection::new(f(2.0), &s);
    let xs = Intersections::new(vec![i1, i2]);
    let v = xs.get_intersections_vector();
    assert_eq!(v.len(), 2);
    assert_eq!(v[0].t, f(1.0));
    assert_eq!(v[1].t, f(2.0));
}

#[test]
fn test_hit1() {
    let s = Sphere::new();
    let i1 = Intersection::new(f(1.0), &s);
    let i2 = Intersection::new(f(2.0), &s);
    let xs = Intersections::new(vec![i1, i2]);
    let i = xs.hit().unwrap();
    assert_eq!(i, i1)
}

#[test]
fn test_hit2() {
    let s = Sphere::new();
    let i1 = Intersection::new(f(-1.0), &s);
    let i2 = Intersection::new(f(1.0), &s);
    let xs = Intersections::new(vec![i1, i2]);
    let i = xs.hit().unwrap();
    assert_eq!(i, i2)
}

#[test]
fn test_hit3() {
    let s = Sphere::new();
    let i1 = Intersection::new(f(-2.0), &s);
    let i2 = Intersection::new(f(-1.0), &s);
    let xs = Intersections::new(vec![i1, i2]);
    let i = xs.hit();
    assert_eq!(i, None)
}

#[test]
fn test_hit4() {
    let s = Sphere::new();
    let i1 = Intersection::new(f(5.0), &s);
    let i2 = Intersection::new(f(7.0), &s);
    let i3 = Intersection::new(f(-3.0), &s);
    let i4 = Intersection::new(f(3.0), &s);
    let xs = Intersections::new(vec![i1, i2, i3, i4]);
    let i = xs.hit().unwrap();
    assert_eq!(i, i4)
}

#[test]
fn test_hit5() {
    let xs = Intersections::new(vec![]);
    let i = xs.hit();
    assert_eq!(i, None)
}

#[test]
fn hit_counts_zero_as_visible() {
    let s = Sphere::new();
    let xs = Intersections::new(vec![Intersection::new(f(-1.0), &s), Intersection::new(f(0.0), &s)]);
    assert_eq!(xs.hit().unwrap().t, f(0.0));
}

#[test]
fn hit_keeps_nonnegative_before_negative() {
    let s = Sphere::new();
    let xs = Intersections::new(vec![Intersection::new(f(1.0), &s), Intersection::new(f(-1.0), &s)]);
    assert_eq!(xs.hit().unwrap().t, f(1.0));
}

#[test]
fn sort_orders_by_t() {
    let s = Sphere::new();
    let ts = [5.0, 7.0, -3.0, 3.0, 3.0, -8.0];
    let mut xs = Intersections::new(ts.iter().map(|t| Intersection::new(f(*t), &s)).collect());
    xs.sort();
    let got: Vec<Fx> = xs.get_intersections_vector().iter().map(|i| i.t).collect();
    let want: Vec<Fx> = [-8.0, -3.0, 3.0, 3.0, 5.0, 7.0].iter().map(|t| f(*t)).collect();
    assert_eq!(got, want);
}

#[test]
fn new_from_intersect_wraps_intersect() {
    let r = Ray::new(pt(0.0, 0.0, -5.0), vc(0.0, 0.0, 1.0));
    let s = Sphere::new();
    let xs = Intersections::new_from_intersect(&s, &r);
    assert_eq!(xs.v.len(), 2);
    assert_eq!(xs.hit().unwrap().t, f(4.0));
}

#[test]
fn test_intersection_scaling() {
    let r = Ray::new(pt(0.0, 0.0, -5.0), vc(0.0, 0.0, 1.0));
    let mut s = Sphere::new();
    s.set_transform(&transformations::scaling(f(2.0), f(2.0), f(2.0)));
    let xs = intersect(&s, &r);
    assert_eq!(xs.len(), 2);
    assert_eq!(xs[0].t, f(3.0));
    assert_eq!(xs[1].t, f(7.0));
}

#[test]
fn test_intersection_translation() {
    let r = Ray::new(pt(0.0, 0.0, -5.0), vc(0.0, 0.0, 1.0));
    let mut s = Sphere::new();
    s.set_transform(&transformations::translate(f(5.0), f(0.0), f(0.0)));
    let xs = intersect(&s, &r);
    assert_eq!(xs.len(), 0);
}

#[test]
fn zero_direction_meets_nothing() {
    let r = Ray::new(pt(0.0, 0.0, -5.0), vc(0.0, 0.0, 0.0));
    let s = Sphere::new();
    assert_eq!(intersect(&s, &r).len(), 0);
}

#[test]
fn test_lighting_1() {
    let m = Material::default();
    let position = pt(0.0, 0.0, 0.0);
    let eyev = vc(0.0, 0.0, -1.0);
    let normalv = vc(0.0, 0.0, -1.0);
    let light = PointLight::new(pt(0.0, 0.0, -10.0), c(1.0, 1.0, 1.0));
    let result = lighting(m, light, position, eyev, normalv);
    assert_eq!(result, c(1.9, 1.9, 1.9))
}

#[test]
fn test_lighting_2() {
    let m = Material::default();
    let position = pt(0.0, 0.0, 0.0);
    let s = 2.0_f64.sqrt() / 2.0;
    let eyev = vc(0.0, s, -s);
    let normalv = vc(0.0, 0.0, -1.0);
    let light = PointLight::new(pt(0.0, 0.0, -10.0), c(1.0, 1.0, 1.0));
    let result = lighting(m, light, position, eyev, normalv);
    assert_eq!(result, c(1.0, 1.0, 1.0))
}

#[test]
fn test_lighting_3() {
    let m = Material::default();
    let position = pt(0.0, 0.0, 0.0);
    let eyev = vc(0.0, 0.0, -1.0);
    let normalv = vc(0.0, 0.0, -1.0);
    let light = PointLight::new(pt(0.0, 10.0, -10.0), c(1.0, 1.0, 1.0));
    let result = lighting(m, light, position, eyev, normalv);
    assert_eq!(result, c(0.7364, 0.7364, 0.7364))
}

#[test]
fn test_lighting_4() {
    let m = Material::default();
    let position = pt(0.0, 0.0, 0.0);
    let s = 2.0_f64.sqrt() / 2.0;
    let eyev = vc(0.0, -s, -s);
    let normalv = vc(0.0, 0.0, -1.0);
    let light = PointLight::new(pt(0.0, 10.0, -10.0), c(1.0, 1.0, 1.0));
    let result = lighting(m, light, position, eyev, normalv);
    assert_eq!(result, c(1.6364, 1.6364, 1.6364))
}

#[test]
fn test_lighting_5() {
    let m = Material::default();
    let position = pt(0.0, 0.0, 0.0);
    let eyev = vc(0.0, 0.0, -1.0);
    let normalv = vc(0.0, 0.0, -1.0);
    let light = PointLight::new(pt(0.0, 0.0, 10.0), c(1.0, 1.0, 1.0));
    let result = lighting(m, light, position, eyev, normalv);
    assert_eq!(result, c(0.1, 0.1, 0.1))
}
