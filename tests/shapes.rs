use raytracer::fixed::Fx;
use raytracer::material::Material;
use raytracer::matrix::Matrix;
use raytracer::point_vector::{point, vector, PointVector};
use raytracer::shapes::Sphere;
use raytracer::transformations;

fn f(v: f64) -> Fx {
    Fx::from_raw((v * 4294967296.0).round() as i64)
}

fn pt(x: f64, y: f64, z: f64) -> PointVector {
    point(f(x), f(y), f(z))
}

fn vc(x: f64, y: f64, z: f64) -> PointVector {
    vector(f(x), f(y), f(z))
}

#[test]
fn test_transformation() {
    let s = Sphere::new();
    assert_eq!(s.transform, Matrix::identity(4));
}

#[test]
fn test_transformation2() {
    let mut s = Sphere::new();
    let t = transformations::translate(f(2.0), f(3.0), f(4.0));
    s.set_transform(&t);
    assert_eq!(s.transform, t)
}

#[test]
fn test_normal_at() {
    let s = Sphere::new();
    assert_eq!(s.normal_at(pt(1.0, 0.0, 0.0)), vc(1.0, 0.0, 0.0));
}

#[test]
fn test_normal_at2() {
    let s = Sphere::new();
    assert_eq!(s.normal_at(pt(0.0, 1.0, 0.0)), vc(0.0, 1.0, 0.0));
}

#[test]
fn test_normal_at3() {
    let s = Sphere::new();
    assert_eq!(s.normal_at(pt(0.0, 0.0, 1.0)), vc(0.0, 0.0, 1.0));
}

#[test]
fn test_normal_at4() {
    let s = Sphere::new();
    let c = 3.0_f64.sqrt() / 3.0;
    assert_eq!(s.normal_at(pt(c, c, c)), vc(c, c, c));
}

#[test]
fn test_normal_at5() {
    let s = Sphere::new();
    let c = 3.0_f64.sqrt() / 3.0;
    let n = s.normal_at(pt(c, c, c));
    assert_eq!(n, n.normalize());
}

#[test]
fn test_normal_at6() {
    let mut s = Sphere::new();
    s.set_transform(&transformations::translate(f(0.0), f(1.0), f(0.0)));
    let n = s.normal_at(pt(0.0, 1.70711, -0.70711));
    assert_eq!(n, vc(0.0, 0.70711, -0.70711));
}

#[test]
fn test_normal_at7() {
    let mut s = Sphere::new();
    let angle = std::f64::consts::PI / 5.0;
    let m = transformations::scaling(f(1.0), f(0.5), f(1.0))
        .multiply(&transformations::rotation_z(f(angle.cos()), f(angle.sin())));
    s.set_transform(&m);
    let y = 2.0_f64.sqrt() / 2.0;
    let z = -y;
    let n = s.normal_at(pt(0.0, y, z));
    assert_eq!(n, vc(0.0, 0.97014, -0.24254));
}

#[test]
fn test_sphere_material() {
    let s = Sphere::new();
    let m = &s.material;
    assert_eq!(*m, Material::default());
}

#[test]
fn test_sphere_material2() {
    let mut s = Sphere::new();
    let mut m = Material::default();
    m.ambient = f(1.0);
    s.material = m;
    assert_eq!(s.material, m);
    assert_ne!(s.material, Material::default());
}

#[test]
fn default_material_values() {
    let m = Material::default();
    assert_eq!(m.color, raytracer::color::Color::new(f(1.0), f(1.0), f(1.0)));
    assert_eq!(m.ambient, f(0.1));
    assert_eq!(m.diffuse, f(0.9));
    assert_eq!(m.specular, f(0.9));
    assert_eq!(m.shininess, 200);
}
