//! A pixel buffer and its plain-text PPM (P3) encoding.
use vstd::prelude::*;
use crate::fixed::{Fx, fx, one};
use crate::color::{Color, rgb};

verus! {

/// Longest run of digits, spaces aside, written on one line of pixel data.
pub const LINE_DIGITS: usize = 70;

pub open spec fn clamp_spec(ipt: int, min: int, max: int) -> int {
    if ipt > max {
        max
    } else if ipt < min {
        min
    } else {
        ipt
    }
}

/// `ipt` brought into `[min, max]`.
pub fn clamp(ipt: i32, min: i32, max: i32) -> (r: i32)
    ensures
        r == clamp_spec(ipt as int, min as int, max as int),
{
    if ipt > max {
        max
    } else if ipt < min {
        min
    } else {
        ipt
    }
}

/// A channel scaled to 0..=255: `c * 255` rounded (halves up), then clamped.
pub open spec fn channel_level(c: Fx) -> int {
    clamp_spec((2 * 255 * c.raw + one()) / (2 * one()), 0, 255)
}

/// Decimal digits of `n`, most significant first, as ASCII.
pub open spec fn decimal(n: nat) -> Seq<u8>
    decreases n,
{
    if n < 10 {
        seq![(48 + n) as u8]
    } else {
        decimal(n / 10).push((48 + n % 10) as u8)
    }
}

/// Writes one number: after a space where the line stays within the limit,
/// ending the line where it reaches the limit exactly, and starting a new
/// line first where it would pass it. `state` is the text so far and the
/// digits counted toward the limit.
pub open spec fn emit(state: (Seq<u8>, int), tok: Seq<u8>) -> (Seq<u8>, int) {
    let (s, count) = state;
    if tok.len() + count > LINE_DIGITS {
        (s.push(10u8) + tok + seq![32u8], tok.len() as int)
    } else if tok.len() + count == LINE_DIGITS {
        (s + tok + seq![10u8], 0)
    } else {
        (s + tok + seq![32u8], count + tok.len())
    }
}

pub open spec fn emit_pixel(state: (Seq<u8>, int), c: Color) -> (Seq<u8>, int) {
    let s1 = emit(state, decimal(channel_level(c.red) as nat));
    let s2 = emit(s1, decimal(channel_level(c.green) as nat));
    emit(s2, decimal(channel_level(c.blue) as nat))
}

/// The first `k` pixels of a row.
pub open spec fn emit_row(state: (Seq<u8>, int), row: Seq<Color>, k: nat) -> (Seq<u8>, int)
    decreases k,
{
    if k == 0 {
        state
    } else {
        emit_pixel(emit_row(state, row, (k - 1) as nat), row[k - 1])
    }
}

/// A row ends by replacing the last character with a line break.
pub open spec fn end_row(state: (Seq<u8>, int)) -> (Seq<u8>, int) {
    (state.0.drop_last().push(10u8), state.1)
}

/// The first `i` rows of `width` pixels each.
pub open spec fn emit_rows(state: (Seq<u8>, int), rows: Seq<Seq<Color>>, width: nat, i: nat) -> (Seq<u8>, int)
    decreases i,
{
    if i == 0 {
        state
    } else {
        end_row(emit_row(emit_rows(state, rows, width, (i - 1) as nat), rows[i - 1], width))
    }
}

/// `P3`, the width and height, the largest level 255, one header item per line.
pub open spec fn ppm_header(width: nat, height: nat) -> Seq<u8> {
    seq![80u8, 51u8, 10u8] + decimal(width) + seq![32u8] + decimal(height) + seq![10u8, 50u8, 53u8, 53u8, 10u8]
}

pub struct Canvas {
    pub width: usize,
    pub height: usize,
    pub pixels: Vec<Vec<Color>>,
}

/// Appends the decimal digits of `n`.
fn push_decimal(out: &mut Vec<u8>, n: usize)
    ensures
        final(out)@ == old(out)@ + decimal(n as nat),
    decreases n,
{
    if n < 10 {
        out.push((48 + n) as u8);
    } else {
        push_decimal(out, n / 10);
        out.push((48 + n % 10) as u8);
    }
    assert(final(out)@ =~= old(out)@ + decimal(n as nat));
}

/// The level 0..=255 that a channel is written as.
fn channel_of(c: Fx) -> (r: usize)
    ensures
        r == channel_level(c),
{
    let scaled: i128 = (c.raw as i128) * 510 + 4294967296;
    proof {
        assert(scaled == c.raw * 510 + 4294967296);
        assert(scaled == 510 * c.raw + one());
        assert(scaled == 2 * 255 * c.raw + one());
    }
    if scaled < 0 {
        proof {
            let x = scaled as int;
            let d = 2 * one();
            vstd::arithmetic::div_mod::lemma_fundamental_div_mod(x, d);
            assert(x / d < 0) by (nonlinear_arith)
                requires x == d * (x / d) + x % d, 0 <= x % d < d, x < 0;
        }
        return clamp(-1, 0, 255) as usize;
    }
    let level = scaled / 8589934592;
    let wide: i32 = if level > i32::MAX as i128 {
        i32::MAX
    } else {
        level as i32
    };
    clamp(wide, 0, 255) as usize
}

/// Writes one level to the text, tracking the digits on the current line.
fn emit_level(out: &mut Vec<u8>, count: &mut usize, level: usize)
    requires
        level <= 255,
        *old(count) < LINE_DIGITS,
    ensures
        (final(out)@, *final(count) as int) == emit((old(out)@, *old(count) as int), decimal(level as nat)),
        *final(count) < LINE_DIGITS,
{
    let mut tok: Vec<u8> = Vec::new();
    push_decimal(&mut tok, level);
    proof {
        assert(tok@ =~= decimal(level as nat));
        lemma_decimal_short(level as nat);
    }
    let len = tok.len();
    let ghost start = out@;
    if len + *count > LINE_DIGITS {
        out.push(10u8);
        append_bytes(out, &tok);
        out.push(32u8);
        *count = len;
        assert(out@ =~= start.push(10u8) + tok@ + seq![32u8]);
    } else if len + *count == LINE_DIGITS {
        append_bytes(out, &tok);
        out.push(10u8);
        *count = 0;
        assert(out@ =~= start + tok@ + seq![10u8]);
    } else {
        append_bytes(out, &tok);
        out.push(32u8);
        *count = *count + len;
        assert(out@ =~= start + tok@ + seq![32u8]);
    }
}

proof fn lemma_decimal_short(n: nat)
    requires
        n <= 255,
    ensures
        1 <= decimal(n).len() <= 3,
{
    if n >= 10 {
        let m = n / 10;
        assert(decimal(n).len() == decimal(m).len() + 1);
        if m >= 10 {
            assert(m / 10 < 10);
            assert(decimal(m).len() == decimal(m / 10).len() + 1);
        }
    }
}

/// Appends `tok` to `out`.
fn append_bytes(out: &mut Vec<u8>, tok: &Vec<u8>)
    ensures
        final(out)@ == old(out)@ + tok@,
{
    let mut k: usize = 0;
    while k < tok.len()
        invariant
            k <= tok@.len(),
            out@ == old(out)@ + tok@.subrange(0, k as int),
        decreases tok@.len() - k,
    {
        out.push(tok[k]);
        k = k + 1;
        assert(out@ =~= old(out)@ + tok@.subrange(0, k as int));
    }
    assert(tok@.subrange(0, k as int) =~= tok@);
}

impl Canvas {
    pub open spec fn wf(&self) -> bool {
        &&& self.pixels@.len() == self.height
        &&& forall|i: int| 0 <= i < self.height ==> (#[trigger] self.pixels@[i])@.len() == self.width
    }

    pub open spec fn pixel(&self, w: int, h: int) -> Color {
        self.pixels@[h]@[w]
    }

    pub open spec fn rows(&self) -> Seq<Seq<Color>> {
        self.pixels@.map_values(|r: Vec<Color>| r@)
    }

    /// The whole PPM text of the canvas.
    pub open spec fn ppm(&self) -> Seq<u8> {
        emit_rows((ppm_header(self.width as nat, self.height as nat), 0), self.rows(), self.width as nat, self.height as nat).0
    }

    /// A black canvas.
    pub fn new(width: usize, height: usize) -> (r: Canvas)
        ensures
            r.wf(),
            r.width == width,
            r.height == height,
            forall|w: int, h: int| 0 <= w < width && 0 <= h < height ==> #[trigger] r.pixel(w, h) == rgb(fx(0), fx(0), fx(0)),
    {
        let mut pixels: Vec<Vec<Color>> = Vec::new();
        let mut i: usize = 0;
        while i < height
            invariant
                i <= height,
                pixels@.len() == i,
                forall|k: int| 0 <= k < i ==> (#[trigger] pixels@[k])@.len() == width,
                forall|k: int, l: int| 0 <= k < i && 0 <= l < width ==> #[trigger] pixels@[k]@[l] == rgb(fx(0), fx(0), fx(0)),
            decreases height - i,
        {
            let mut row: Vec<Color> = Vec::new();
            let mut j: usize = 0;
            while j < width
                invariant
                    j <= width,
                    row@.len() == j,
                    forall|l: int| 0 <= l < j ==> #[trigger] row@[l] == rgb(fx(0), fx(0), fx(0)),
                decreases width - j,
            {
                row.push(Color::new(Fx::zero(), Fx::zero(), Fx::zero()));
                j = j + 1;
            }
            pixels.push(row);
            i = i + 1;
        }
        Canvas { width, height, pixels }
    }

    /// The canvas as PPM text: a header, then each row's levels in red,
    /// green, blue order, separated by spaces, with a line break wherever
    /// the digits written since the last break would pass the limit; each
    /// row ends with a line break in place of its last character.
    pub fn to_ppm(&self) -> (r: Vec<u8>)
        requires
            self.wf(),
        ensures
            r@ == self.ppm(),
    {
        let ghost init = (ppm_header(self.width as nat, self.height as nat), 0int);
        let ghost rows = self.rows();
        let mut s: Vec<u8> = Vec::new();
        s.push(80u8);
        s.push(51u8);
        s.push(10u8);
        push_decimal(&mut s, self.width);
        s.push(32u8);
        push_decimal(&mut s, self.height);
        s.push(10u8);
        s.push(50u8);
        s.push(53u8);
        s.push(53u8);
        s.push(10u8);
        assert(s@ =~= init.0);
        let mut row_size: usize = 0;
        let mut i: usize = 0;
        while i < self.height
            invariant
                self.wf(),
                rows == self.rows(),
                init == (ppm_header(self.width as nat, self.height as nat), 0int),
                i <= self.height,
                row_size < LINE_DIGITS,
                s@.len() > 0,
                (s@, row_size as int) == emit_rows(init, rows, self.width as nat, i as nat),
            decreases self.height - i,
        {
            let ghost row_start = (s@, row_size as int);
            let mut j: usize = 0;
            while j < self.width
                invariant
                    self.wf(),
                    rows == self.rows(),
                    i < self.height,
                    j <= self.width,
                    row_size < LINE_DIGITS,
                    s@.len() > 0,
                    (s@, row_size as int) == emit_row(row_start, rows[i as int], j as nat),
                decreases self.width - j,
            {
                let c = self.pixels[i][j];
                assert(c == rows[i as int][j as int]);
                emit_level(&mut s, &mut row_size, channel_of(c.red));
                emit_level(&mut s, &mut row_size, channel_of(c.green));
                emit_level(&mut s, &mut row_size, channel_of(c.blue));
                j = j + 1;
            }
            s.pop();
            s.push(10u8);
            assert(s@ =~= emit_row(row_start, rows[i as int], self.width as nat).0.drop_last().push(10u8));
            i = i + 1;
        }
        s
    }

    /// Writes one pixel; a position outside the canvas changes nothing.
    pub fn write_pixel(&mut self, w: usize, h: usize, pixel: Color)
        requires
            old(self).wf(),
        ensures
            final(self).wf(),
            final(self).width == old(self).width,
            final(self).height == old(self).height,
            forall|x: int, y: int| 0 <= x < old(self).width && 0 <= y < old(self).height ==> #[trigger] final(self).pixel(x, y)
                == if x == w && y == h { pixel } else { old(self).pixel(x, y) },
    {
        if h < self.height && w < self.width {
            self.pixels[h][w] = pixel;
        }
    }

    pub fn get_pixel(&self, w: usize, h: usize) -> (r: Color)
        requires
            self.wf(),
            w < self.width,
            h < self.height,
        ensures
            r == self.pixel(w as int, h as int),
    {
        self.pixels[h][w]
    }

    /// Paints every pixel with `c`.
    pub fn set_all(&mut self, c: Color)
        requires
            old(self).wf(),
        ensures
            final(self).wf(),
            final(self).width == old(self).width,
            final(self).height == old(self).height,
            forall|x: int, y: int| 0 <= x < old(self).width && 0 <= y < old(self).height ==> #[trigger] final(self).pixel(x, y) == c,
    {
        let mut h: usize = 0;
        while h < self.height
            invariant
                self.wf(),
                self.width == old(self).width,
                self.height == old(self).height,
                h <= self.height,
                forall|x: int, y: int| 0 <= x < self.width && 0 <= y < h ==> #[trigger] self.pixel(x, y) == c,
            decreases self.height - h,
        {
            let mut w: usize = 0;
            while w < self.width
                invariant
                    self.wf(),
                    self.width == old(self).width,
                    self.height == old(self).height,
                    h < self.height,
                    w <= self.width,
                    forall|x: int, y: int| 0 <= x < self.width && 0 <= y < h ==> #[trigger] self.pixel(x, y) == c,
                    forall|x: int| 0 <= x < w ==> #[trigger] self.pixel(x, h as int) == c,
                decreases self.width - w,
            {
                self.write_pixel(w, h, c);
                w = w + 1;
            }
            h = h + 1;
        }
    }
}

} // verus!
