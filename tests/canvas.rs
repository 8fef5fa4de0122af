use raytracer::canvas::{clamp, Canvas};
use raytracer::color::Color;
use raytracer::fixed::Fx;

fn f(v: f64) -> Fx {
    Fx::from_raw((v * 4294967296.0).round() as i64)
}

fn c(r: f64, g: f64, b: f64) -> Color {
    Color::new(f(r), f(g), f(b))
}

fn text(cv: &Canvas) -> String {
    String::from_utf8(cv.to_ppm()).unwrap()
}

#[test]
fn test_createcanvas() {
    let black = c(0.0, 0.0, 0.0);
    let cv = Canvas::new(10, 20);
    for row in cv.pixels.iter() {
        for pixel in row {
            assert_eq!(*pixel, black);
        }
    }
}

#[test]
fn test_write() {
    let mut cv = Canvas::new(10, 20);
    let red = c(1.0, 0.0, 0.0);
    let green = c(0.0, 1.0, 0.0);
    cv.write_pixel(2, 3, red);
    assert_eq!(cv.get_pixel(2, 3), red);
    assert_ne!(cv.get_pixel(2, 3), green);
}

#[test]
fn test_toppm() {
    let cv = Canvas::new(10, 20);
    let s = text(&cv);
    let vec_s: Vec<&str> = s.split('\n').collect();
    let slice_s = vec_s[0..3].join("\n");
    assert_eq!(slice_s, "P3\n10 20\n255")
}

#[test]
fn test_toppm_2() {
    let mut cv = Canvas::new(5, 3);
    cv.write_pixel(0, 0, c(1.5, 0.0, 0.0));
    cv.write_pixel(2, 1, c(0.0, 0.5, 0.0));
    cv.write_pixel(4, 2, c(-0.5, 0.0, 1.0));
    let s = text(&cv);
    let vec_s: Vec<&str> = s.split('\n').collect();
    let slice_s = vec_s[3..6].join("\n");
    assert_eq!(slice_s, "255 0 0 0 0 0 0 0 0 0 0 0 0 0 0\n0 0 0 0 0 0 0 128 0 0 0 0 0 0 0\n0 0 0 0 0 0 0 0 0 0 0 0 0 0 255")
}

#[test]
fn test_toppm3() {
    let mut cv = Canvas::new(10, 2);
    cv.set_all(c(1.0, 0.8, 0.6));
    let s = text(&cv);
    let vec_s: Vec<&str> = s.split('\n').collect();
    let slice_s = vec_s[3..8].join("\n");
    assert_eq!(slice_s, "255 204 153 255 204 153 255 204 153 255 204 153 255 204 153 255 204 153 255 204 153 255 204 \n153 255 204 153 255 204 153\n255 204 153 255 204 153 255 204 153 255 204 153 255 204 153 255 \n204 153 255 204 153 255 204 153 255 204 153 255 204 153\n")
}

#[test]
fn test_toppm4() {
    let cv = Canvas::new(5, 3);
    let mut s = text(&cv);
    assert_eq!(s.pop().unwrap(), '\n')
}

#[test]
fn clamp_bounds() {
    assert_eq!(clamp(300, 0, 255), 255);
    assert_eq!(clamp(-4, 0, 255), 0);
    assert_eq!(clamp(17, 0, 255), 17);
}

#[test]
fn write_outside_is_ignored() {
    let mut cv = Canvas::new(2, 2);
    cv.write_pixel(2, 0, c(1.0, 1.0, 1.0));
    cv.write_pixel(0, 2, c(1.0, 1.0, 1.0));
    assert_eq!(text(&cv), "P3\n2 2\n255\n0 0 0 0 0 0\n0 0 0 0 0 0\n");
}
