//! Background sources that need no image: flat colours and gradients.

use crate::color::Rgb;
use crate::geometry::Orientation;
use crate::raster::{
    filled, lemma_build_at, lemma_fill_done, lemma_fill_next, Canvas, Grid, Raster,
};
use vstd::arithmetic::div_mod::lemma_fundamental_div_mod_converse;
use vstd::prelude::*;

verus! {

/// The canvas of the given size whose every pixel is `color`.
pub open spec fn flat(width: nat, height: nat, color: Rgb) -> Grid<Rgb> {
    Grid::build(width, height, |x: int, y: int| color)
}

/// Black, the colour of a canvas on which nothing was drawn.
pub open spec fn black() -> Rgb {
    Rgb { red: 0, green: 0, blue: 0 }
}

/// Makes a canvas of a screen's size filled with one colour.
pub fn solid(width: u16, height: u16, color: Rgb) -> (out: Canvas)
    ensures
        out@ == flat(width as nat, height as nat, color),
{
    let ghost cell = |x: int, y: int| color;
    let mut pixels: Vec<Rgb> = Vec::new();
    let mut y: u16 = 0;
    while y < height
        invariant
            y <= height,
            pixels@.len() == y * width,
            filled(pixels@, width as nat, cell),
            cell == (|x: int, y: int| color),
        decreases height - y,
    {
        let mut x: u16 = 0;
        while x < width
            invariant
                y < height,
                x <= width,
                pixels@.len() == y * width + x,
                filled(pixels@, width as nat, cell),
                cell == (|x: int, y: int| color),
            decreases width - x,
        {
            proof {
                lemma_fill_next(pixels@, width as nat, height as nat, cell, x as int, y as int);
            }
            pixels.push(color);
            x = x + 1;
        }
        proof {
            assert(y * width + width == (y + 1) * width) by (nonlinear_arith);
        }
        y = y + 1;
    }
    proof {
        assert(height * width == width * height) by (nonlinear_arith);
        lemma_fill_done(pixels@, width as nat, height as nat, cell);
    }
    Raster::assemble(width as u32, height as u32, pixels)
}

/// Makes the canvas on which an image is drawn when no colour was asked for:
/// a screen's size of black.
pub fn blank(width: u16, height: u16) -> (out: Canvas)
    ensures
        out@ == flat(width as nat, height as nat, black()),
{
    solid(width, height, Rgb { red: 0, green: 0, blue: 0 })
}

/// The channel value `step` of `steps` equal steps on the way from `from`
/// to `to`, rounded down.
pub open spec fn lerp(from: u8, to: u8, step: int, steps: int) -> u8 {
    ((from * (steps - step) + to * step) / steps) as u8
}

/// Sample `i` of `count` evenly spaced samples of the gradient through
/// `stops`.  The stops are evenly spaced too; the first sample lies on the
/// first stop and the last sample on the last stop, and between two stops
/// the colour changes linearly.  A single sample, or a single stop, gives the
/// first stop.
pub open spec fn gradient_sample(stops: Seq<Rgb>, count: nat, i: int) -> Rgb {
    if count <= 1 || stops.len() <= 1 {
        stops[0]
    } else {
        let span = count - 1;
        let scaled = i * (stops.len() - 1);
        let from = stops[scaled / span];
        let to = if scaled / span + 1 < stops.len() {
            stops[scaled / span + 1]
        } else {
            from
        };
        Rgb {
            red: lerp(from.red, to.red, scaled % span, span),
            green: lerp(from.green, to.green, scaled % span, span),
            blue: lerp(from.blue, to.blue, scaled % span, span),
        }
    }
}

/// The colour of cell `(x, y)` of a gradient canvas: a horizontal gradient
/// is sampled across the width and gives every column one colour, a vertical
/// one is sampled across the height and gives every row one colour.
pub open spec fn gradient_cell(
    width: nat,
    height: nat,
    orientation: Orientation,
    stops: Seq<Rgb>,
    x: int,
    y: int,
) -> Rgb {
    match orientation {
        Orientation::Horizontal => gradient_sample(stops, width, x),
        Orientation::Vertical => gradient_sample(stops, height, y),
    }
}

/// The canvas of the given size that shows the gradient through `stops`.
pub open spec fn gradient_grid(
    width: nat,
    height: nat,
    orientation: Orientation,
    stops: Seq<Rgb>,
) -> Grid<Rgb> {
    Grid::build(
        width,
        height,
        |x: int, y: int| gradient_cell(width, height, orientation, stops, x, y),
    )
}

/// The perceived brightness of a colour, in thousandths of a channel step.
pub open spec fn luminance(color: Rgb) -> int {
    299 * color.red + 587 * color.green + 114 * color.blue
}

/// An interpolated channel lies between its two ends.
pub proof fn lemma_lerp_between(from: u8, to: u8, step: int, steps: int)
    requires
        0 <= step < steps,
    ensures
        lerp(from, to, step, steps) == (from * (steps - step) + to * step) / steps,
        from <= to ==> from <= lerp(from, to, step, steps) <= to,
        to <= from ==> to <= lerp(from, to, step, steps) <= from,
        step == 0 ==> lerp(from, to, step, steps) == from,
{
    let total = from * (steps - step) + to * step;
    let low: int = if from <= to {
        from as int
    } else {
        to as int
    };
    let high: int = if from <= to {
        to as int
    } else {
        from as int
    };
    assert(low * steps <= total <= high * steps) by (nonlinear_arith)
        requires
            total == from * (steps - step) + to * step,
            0 <= step < steps,
            low <= from <= high,
            low <= to <= high,
    ;
    assert(low <= total / steps <= high) by (nonlinear_arith)
        requires
            low * steps <= total <= high * steps,
            steps > 0,
    ;
    if step == 0 {
        assert(total == from * steps);
        assert((from * steps) / steps == from) by (nonlinear_arith)
            requires
                steps > 0,
        ;
    }
}

fn interpolate(from: u8, to: u8, step: u16, steps: u16) -> (out: u8)
    requires
        step < steps,
    ensures
        out == lerp(from, to, step as int, steps as int),
{
    proof {
        lemma_lerp_between(from, to, step as int, steps as int);
    }
    let f: u32 = from as u32;
    let t: u32 = to as u32;
    let rest: u32 = (steps - step) as u32;
    assert(f * rest <= 255 * 0xffff) by (nonlinear_arith)
        requires
            0 <= f <= 255,
            0 <= rest <= 0xffff,
    ;
    assert(t * step <= 255 * 0xffff) by (nonlinear_arith)
        requires
            0 <= t <= 255,
            0 <= step <= 0xffff,
    ;
    ((f * rest + t * (step as u32)) / (steps as u32)) as u8
}

/// A gradient: one or more colour stops in order.
pub struct Gradient {
    stops: Vec<Rgb>,
}

impl View for Gradient {
    type V = Seq<Rgb>;

    closed spec fn view(&self) -> Seq<Rgb> {
        self.stops@
    }
}

impl Gradient {
    #[verifier::type_invariant]
    pub open spec fn inv(self) -> bool {
        self@.len() >= 1
    }

    /// Makes a gradient through the given stops, or `None` if there is none.
    pub fn new(stops: Vec<Rgb>) -> (out: Option<Gradient>)
        ensures
            out is Some <==> stops@.len() >= 1,
            out is Some ==> out->0@ == stops@,
    {
        if stops.len() >= 1 {
            Some(Gradient { stops })
        } else {
            None
        }
    }

    /// Sample `i` of `count` evenly spaced samples.
    pub fn sample(&self, count: u16, i: u16) -> (out: Rgb)
        requires
            i < count,
        ensures
            out == gradient_sample(self@, count as nat, i as int),
    {
        proof {
            use_type_invariant(self);
        }
        let last: usize = self.stops.len() - 1;
        if count <= 1 || last == 0 {
            return self.stops[0];
        }
        let span: u16 = count - 1;
        assert(i * last <= 0xffff * usize::MAX) by (nonlinear_arith)
            requires
                0 <= i <= 0xffff,
                0 <= last <= usize::MAX,
        ;
        let scaled: u128 = (i as u128) * (last as u128);
        let ghost whole = scaled as int / span as int;
        proof {
            assert(0 <= whole <= last) by (nonlinear_arith)
                requires
                    whole == scaled as int / span as int,
                    scaled == i * last,
                    0 <= i <= span,
                    0 < span,
                    0 <= last,
            ;
        }
        let segment: usize = (scaled / (span as u128)) as usize;
        let step: u16 = (scaled % (span as u128)) as u16;
        let from: Rgb = self.stops[segment];
        let to: Rgb = if segment < last {
            self.stops[segment + 1]
        } else {
            from
        };
        Rgb {
            red: interpolate(from.red, to.red, step, span),
            green: interpolate(from.green, to.green, step, span),
            blue: interpolate(from.blue, to.blue, step, span),
        }
    }
}

/// Makes a canvas of a screen's size that shows `gradient`: sampled across
/// the width and drawn down each column, or sampled across the height and
/// drawn along each row.
pub fn from_gradient(
    width: u16,
    height: u16,
    orientation: Orientation,
    gradient: &Gradient,
) -> (out: Canvas)
    ensures
        out@ == gradient_grid(width as nat, height as nat, orientation, gradient@),
{
    let ghost cell = |x: int, y: int|
        gradient_cell(width as nat, height as nat, orientation, gradient@, x, y);
    let mut pixels: Vec<Rgb> = Vec::new();
    let mut y: u16 = 0;
    while y < height
        invariant
            y <= height,
            pixels@.len() == y * width,
            filled(pixels@, width as nat, cell),
            cell == (|x: int, y: int|
                gradient_cell(width as nat, height as nat, orientation, gradient@, x, y)),
        decreases height - y,
    {
        let mut x: u16 = 0;
        while x < width
            invariant
                y < height,
                x <= width,
                pixels@.len() == y * width + x,
                filled(pixels@, width as nat, cell),
                cell == (|x: int, y: int|
                    gradient_cell(width as nat, height as nat, orientation, gradient@, x, y)),
            decreases width - x,
        {
            let color = match orientation {
                Orientation::Horizontal => gradient.sample(width, x),
                Orientation::Vertical => gradient.sample(height, y),
            };
            proof {
                lemma_fill_next(pixels@, width as nat, height as nat, cell, x as int, y as int);
            }
            pixels.push(color);
            x = x + 1;
        }
        proof {
            assert(y * width + width == (y + 1) * width) by (nonlinear_arith);
        }
        y = y + 1;
    }
    proof {
        assert(height * width == width * height) by (nonlinear_arith);
        lemma_fill_done(pixels@, width as nat, height as nat, cell);
    }
    Raster::assemble(width as u32, height as u32, pixels)
}

/// White, the brightest colour.
pub open spec fn white() -> Rgb {
    Rgb { red: 255, green: 255, blue: 255 }
}

/// With at least two samples, the first sample of a gradient is its first
/// stop and the last sample is its last stop.
pub proof fn lemma_gradient_ends(stops: Seq<Rgb>, count: nat)
    requires
        stops.len() >= 1,
        count >= 2,
    ensures
        gradient_sample(stops, count, 0) == stops.first(),
        gradient_sample(stops, count, count - 1) == stops.last(),
{
    if stops.len() > 1 {
        let span = count - 1;
        let last = stops.len() - 1;
        assert(0 * last == 0);
        assert(0int / span == 0 && 0int % span == 0);
        assert(span * last == last * span) by (nonlinear_arith);
        lemma_fundamental_div_mod_converse(span * last, span, last, 0);
        let first = stops.first();
        let end = stops.last();
        lemma_lerp_between(first.red, stops[1].red, 0, span);
        lemma_lerp_between(first.green, stops[1].green, 0, span);
        lemma_lerp_between(first.blue, stops[1].blue, 0, span);
        lemma_lerp_between(end.red, end.red, 0, span);
        lemma_lerp_between(end.green, end.green, 0, span);
        lemma_lerp_between(end.blue, end.blue, 0, span);
    }
}

/// From black to white, sample `i` of `count` is the grey of level
/// `255 * i / (count - 1)`.
pub proof fn lemma_black_to_white_sample(count: nat, i: int)
    requires
        count >= 2,
        0 <= i < count,
    ensures
        ({
            let level = (255 * i) / (count - 1);
            &&& 0 <= level <= 255
            &&& gradient_sample(seq![black(), white()], count, i) == (Rgb {
                red: level as u8,
                green: level as u8,
                blue: level as u8,
            })
        }),
{
    let stops = seq![black(), white()];
    let span = count - 1;
    assert(i * 1 == i);
    assert(0 <= (255 * i) / span <= 255) by (nonlinear_arith)
        requires
            0 <= i <= span,
            0 < span,
    ;
    if i < span {
        lemma_fundamental_div_mod_converse(i, span, 0, i);
        assert(stops[0] == black() && stops[1] == white());
        assert(0 * (span - i) + 255 * i == 255 * i);
    } else {
        lemma_fundamental_div_mod_converse(i, span, 1, 0);
        assert(stops[1] == white());
        lemma_lerp_between(255, 255, 0, span);
        assert((255 * span) / span == 255) by (nonlinear_arith)
            requires
                0 < span,
        ;
    }
}

/// A vertical gradient from black to white over two or more rows starts with
/// a black row, ends with a white row, and never gets darker from one row to
/// a row below it.
pub proof fn lemma_vertical_black_to_white(
    width: nat,
    height: nat,
    x1: int,
    y1: int,
    x2: int,
    y2: int,
)
    requires
        height >= 2,
        0 <= x1 < width,
        0 <= x2 < width,
        0 <= y1 <= y2 < height,
    ensures
        ({
            let rows = gradient_grid(
                width,
                height,
                Orientation::Vertical,
                seq![black(), white()],
            );
            &&& rows.at(x1, 0) == black()
            &&& rows.at(x1, height - 1) == white()
            &&& luminance(rows.at(x1, y1)) <= luminance(rows.at(x2, y2))
        }),
{
    let stops = seq![black(), white()];
    let cell = |x: int, y: int| gradient_cell(width, height, Orientation::Vertical, stops, x, y);
    lemma_build_at(width, height, cell, x1, 0);
    lemma_build_at(width, height, cell, x1, height - 1);
    lemma_build_at(width, height, cell, x1, y1);
    lemma_build_at(width, height, cell, x2, y2);
    lemma_gradient_ends(stops, height);
    assert(stops.first() == black() && stops.last() == white());
    lemma_black_to_white_sample(height, y1);
    lemma_black_to_white_sample(height, y2);
    assert((255 * y1) / (height - 1) <= (255 * y2) / (height - 1)) by (nonlinear_arith)
        requires
            0 <= y1 <= y2,
            height - 1 > 0,
    ;
}

} // verus!
