use raytracer::color::Color;
use raytracer::fixed::Fx;

fn f(v: f64) -> Fx {
    Fx::from_raw((v * 4294967296.0).round() as i64)
}

fn c(r: f64, g: f64, b: f64) -> Color {
    Color::new(f(r), f(g), f(b))
}

#[test]
fn color_test_compare_float() {
    let c = c(-0.5, 0.4, 1.7);
    assert_eq!(c.red, f(-0.5));
    assert_eq!(c.green, f(0.4));
    assert_eq!(c.blue, f(1.7));
}

#[test]
fn test_add() {
    let c1 = c(0.9, 0.6, 0.75);
    let c2 = c(0.7, 0.1, 0.25);
    assert_eq!(c1.add(&c2), c(1.6, 0.7, 1.0))
}

#[test]
fn test_sub() {
    let c1 = c(0.9, 0.6, 0.75);
    let c2 = c(0.7, 0.1, 0.25);
    assert_eq!(c1.subtract(&c2), c(0.2, 0.5, 0.5))
}

#[test]
fn test_mulscalar() {
    let c1 = c(0.2, 0.3, 0.4);
    assert_eq!(c1.multiply_scalar(f(2.0)), c(0.4, 0.6, 0.8))
}

#[test]
fn color_test_mul() {
    let c1 = c(1.0, 0.2, 0.4);
    let c2 = c(0.9, 1.0, 0.1);
    assert_eq!(c1.hadamard_product(&c2), c(0.9, 0.2, 0.04))
}

#[test]
fn color_negate_and_divide() {
    let c1 = c(0.5, -1.0, 2.0);
    assert_eq!(c1.negate(), c(-0.5, 1.0, -2.0));
    assert_eq!(c1.divide_scalar(f(4.0)), c(0.125, -0.25, 0.5));
    assert_ne!(c1.divide_scalar(f(4.0)), c1);
}
