//! Colors as red, green and blue intensities, unclamped.
use vstd::prelude::*;
use crate::fixed::{Fx, fx_add, fx_sub, fx_neg, fx_mul, fx_div, fx_close, compare_float};

verus! {

#[derive(Clone, Copy, Debug)]
pub struct Color {
    pub red: Fx,
    pub green: Fx,
    pub blue: Fx,
}

pub open spec fn rgb(red: Fx, green: Fx, blue: Fx) -> Color {
    Color { red, green, blue }
}

pub open spec fn color_add(a: Color, b: Color) -> Color {
    rgb(fx_add(a.red, b.red), fx_add(a.green, b.green), fx_add(a.blue, b.blue))
}

pub open spec fn color_sub(a: Color, b: Color) -> Color {
    rgb(fx_sub(a.red, b.red), fx_sub(a.green, b.green), fx_sub(a.blue, b.blue))
}

pub open spec fn color_neg(a: Color) -> Color {
    rgb(fx_neg(a.red), fx_neg(a.green), fx_neg(a.blue))
}

pub open spec fn color_scale(a: Color, s: Fx) -> Color {
    rgb(fx_mul(a.red, s), fx_mul(a.green, s), fx_mul(a.blue, s))
}

pub open spec fn color_div(a: Color, s: Fx) -> Color {
    rgb(fx_div(a.red, s), fx_div(a.green, s), fx_div(a.blue, s))
}

/// Component-wise product.
pub open spec fn color_hadamard(a: Color, b: Color) -> Color {
    rgb(fx_mul(a.red, b.red), fx_mul(a.green, b.green), fx_mul(a.blue, b.blue))
}

pub open spec fn color_close(a: Color, b: Color) -> bool {
    fx_close(a.red, b.red) && fx_close(a.green, b.green) && fx_close(a.blue, b.blue)
}

impl Color {
    pub fn new(red: Fx, green: Fx, blue: Fx) -> (r: Color)
        ensures
            r == rgb(red, green, blue),
    {
        Color { red, green, blue }
    }

    pub fn black() -> (r: Color)
        ensures
            r.red.raw == 0 && r.green.raw == 0 && r.blue.raw == 0,
    {
        Color { red: Fx::zero(), green: Fx::zero(), blue: Fx::zero() }
    }

    pub fn add(&self, c: &Color) -> (r: Color)
        ensures
            r == color_add(*self, *c),
    {
        Color::new(self.red.add(c.red), self.green.add(c.green), self.blue.add(c.blue))
    }

    pub fn subtract(&self, c: &Color) -> (r: Color)
        ensures
            r == color_sub(*self, *c),
    {
        Color::new(self.red.sub(c.red), self.green.sub(c.green), self.blue.sub(c.blue))
    }

    pub fn negate(&self) -> (r: Color)
        ensures
            r == color_neg(*self),
    {
        Color::new(self.red.neg(), self.green.neg(), self.blue.neg())
    }

    pub fn multiply_scalar(&self, s: Fx) -> (r: Color)
        ensures
            r == color_scale(*self, s),
    {
        Color::new(self.red.mul(s), self.green.mul(s), self.blue.mul(s))
    }

    pub fn divide_scalar(&self, s: Fx) -> (r: Color)
        requires
            s.raw != 0,
        ensures
            r == color_div(*self, s),
    {
        Color::new(self.red.div(s), self.green.div(s), self.blue.div(s))
    }

    pub fn hadamard_product(&self, c: &Color) -> (r: Color)
        ensures
            r == color_hadamard(*self, *c),
    {
        Color::new(self.red.mul(c.red), self.green.mul(c.green), self.blue.mul(c.blue))
    }
}

impl PartialEq for Color {
    fn eq(&self, other: &Self) -> (r: bool) {
        compare_float(&self.red, &other.red) && compare_float(&self.green, &other.green)
            && compare_float(&self.blue, &other.blue)
    }
}

impl vstd::std_specs::cmp::PartialEqSpecImpl for Color {
    open spec fn obeys_eq_spec() -> bool {
        true
    }

    open spec fn eq_spec(&self, other: &Color) -> bool {
        color_close(*self, *other)
    }
}

} // verus!
