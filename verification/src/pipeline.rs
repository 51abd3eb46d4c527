//! The pipeline from a background description to the canvas to install.

use crate::color::{Rgb, Rgba};
use crate::compose::{compose, composed, Placement};
use crate::failure::Failure;
use crate::geometry::{Area, Orientation};
use crate::raster::{lemma_build_at, outcome, Canvas, Grid, Image};
use crate::scaling::{resize, resized, Resize};
use crate::source::{black, blank, flat, from_gradient, gradient_grid, solid, Gradient};
use crate::transform::{crop, cropping, flip_all, flipped_all, lemma_flipped_all_size};
use vstd::prelude::*;

verus! {

/// What the canvas shows before an image is drawn on it.
pub enum Background {
    /// Black.
    Blank,
    /// One colour.
    Solid(Rgb),
    /// A gradient along one axis.
    Gradient { gradient: Gradient, orientation: Orientation },
}

/// A background description.
pub struct Config {
    pub background: Background,
    pub crop: Option<Area>,
    pub resize: Resize,
    pub placement: Placement,
    pub opacity: u8,
    pub flips: Vec<Orientation>,
}

/// The mathematical model of `Background`.
pub enum Backdrop {
    Blank,
    Solid(Rgb),
    Gradient { stops: Seq<Rgb>, orientation: Orientation },
}

/// The mathematical model of `Config`.
pub struct Plan {
    pub backdrop: Backdrop,
    pub crop: Option<Area>,
    pub resize: Resize,
    pub placement: Placement,
    pub opacity: u8,
    pub flips: Seq<Orientation>,
}

impl View for Background {
    type V = Backdrop;

    open spec fn view(&self) -> Backdrop {
        match *self {
            Background::Blank => Backdrop::Blank,
            Background::Solid(color) => Backdrop::Solid(color),
            Background::Gradient { gradient, orientation } => Backdrop::Gradient {
                stops: gradient@,
                orientation,
            },
        }
    }
}

impl View for Config {
    type V = Plan;

    open spec fn view(&self) -> Plan {
        Plan {
            backdrop: self.background@,
            crop: self.crop,
            resize: self.resize,
            placement: self.placement,
            opacity: self.opacity,
            flips: self.flips@,
        }
    }
}

/// The canvas of the given size that shows a backdrop.
pub open spec fn backdrop_grid(backdrop: Backdrop, width: nat, height: nat) -> Grid<Rgb> {
    match backdrop {
        Backdrop::Blank => flat(width, height, black()),
        Backdrop::Solid(color) => flat(width, height, color),
        Backdrop::Gradient { stops, orientation } => gradient_grid(
            width,
            height,
            orientation,
            stops,
        ),
    }
}

/// Makes the canvas of a screen's size that shows a background.
pub fn paint(background: &Background, width: u16, height: u16) -> (out: Canvas)
    ensures
        out@ == backdrop_grid(background@, width as nat, height as nat),
{
    match background {
        Background::Blank => blank(width, height),
        Background::Solid(color) => solid(width, height, *color),
        Background::Gradient { gradient, orientation } => from_gradient(
            width,
            height,
            *orientation,
            gradient,
        ),
    }
}

/// What the last stage gives: the canvas after the flips, in their order.
pub open spec fn finished(plan: Plan, canvas: Grid<Rgb>) -> Result<Grid<Rgb>, Failure> {
    Ok(flipped_all(canvas, plan.flips))
}

/// What may follow from what the placement stage gave: the failure, or the
/// canvas after the flips.
pub open spec fn flipped_after(
    plan: Plan,
    placed: Result<Grid<Rgb>, Failure>,
) -> Result<Grid<Rgb>, Failure> {
    match placed {
        Ok(canvas) => finished(plan, canvas),
        Err(failure) => Err(failure),
    }
}

/// What may come of an image that the resize stage has handed on: it is
/// placed on the canvas, and the canvas is flipped.
pub open spec fn placed_after(
    plan: Plan,
    base: Grid<Rgb>,
    image: Grid<Rgba>,
    after: Result<Grid<Rgb>, Failure>,
) -> bool {
    exists|placed: Result<Grid<Rgb>, Failure>| #[trigger]
        composed(base, image, plan.placement, plan.opacity, placed) && after == flipped_after(
            plan,
            placed,
        )
}

/// What may follow from what the resize stage gave: the failure, or what
/// may come of the image that it handed on.
pub open spec fn sized_after(
    plan: Plan,
    base: Grid<Rgb>,
    sized: Result<Grid<Rgba>, Failure>,
    after: Result<Grid<Rgb>, Failure>,
) -> bool {
    match sized {
        Ok(image) => placed_after(plan, base, image, after),
        Err(failure) => after == Err::<Grid<Rgb>, Failure>(failure),
    }
}

/// What may come of an image that the crop stage has handed on: it is
/// resized, placed on the canvas, and the canvas is flipped.
pub open spec fn resized_after(
    plan: Plan,
    base: Grid<Rgb>,
    cut: Grid<Rgba>,
    width: u16,
    height: u16,
    after: Result<Grid<Rgb>, Failure>,
) -> bool {
    exists|sized: Result<Grid<Rgba>, Failure>| #[trigger]
        resized(cut, plan.resize, width, height, sized) && sized_after(plan, base, sized, after)
}

/// What the crop stage gives: the image cropped where a crop is asked for
/// and lies within it, the image itself where none is asked for, and a
/// refusal otherwise.
pub open spec fn cut(plan: Plan, picture: Grid<Rgba>) -> Result<Grid<Rgba>, Failure> {
    match plan.crop {
        Some(area) => cropping(picture, area),
        None => Ok(picture),
    }
}

/// What may come of an image: the failure of the crop stage, or what may
/// come of the image that it hands on.
pub open spec fn drawn(
    plan: Plan,
    base: Grid<Rgb>,
    picture: Grid<Rgba>,
    width: u16,
    height: u16,
    after: Result<Grid<Rgb>, Failure>,
) -> bool {
    match cut(plan, picture) {
        Ok(cut) => resized_after(plan, base, cut, width, height, after),
        Err(failure) => after == Err::<Grid<Rgb>, Failure>(failure),
    }
}

/// What rendering may give.
///
/// The canvas starts as the backdrop at the screen's size.  Without an
/// image it is only flipped.  With one, the image is cropped, where a crop
/// is asked for and lies within the image; resized; and placed at the
/// opacity asked for; and the canvas is flipped last.  The first stage that
/// fails ends the rendering with its failure.  Where a stage resamples, the
/// colours that it hands on are the resampler's.
pub open spec fn rendered(
    plan: Plan,
    width: u16,
    height: u16,
    image: Option<Grid<Rgba>>,
    after: Result<Grid<Rgb>, Failure>,
) -> bool {
    match image {
        None => after == finished(
            plan,
            backdrop_grid(plan.backdrop, width as nat, height as nat),
        ),
        Some(picture) => drawn(
            plan,
            backdrop_grid(plan.backdrop, width as nat, height as nat),
            picture,
            width,
            height,
            after,
        ),
    }
}

/// The model of the image that is handed to the rendering, if one is.
pub open spec fn pictured(image: Option<Image>) -> Option<Grid<Rgba>> {
    match image {
        Some(picture) => Some(picture@),
        None => None,
    }
}

/// Renders the canvas to install on a screen of the given size, from a
/// background description and the image that it is about, if there is one.
pub fn render(
    config: &Config,
    width: u16,
    height: u16,
    image: Option<Image>,
) -> (out: Result<Canvas, Failure>)
    ensures
        rendered(config@, width, height, pictured(image), outcome(out)),
{
    let base = paint(&config.background, width, height);
    let ghost ground = base@;
    let picture = match image {
        Some(picture) => picture,
        None => {
            return Ok(flip_all(base, &config.flips));
        },
    };
    let cut = match config.crop {
        Some(area) => match crop(picture, &area) {
            Ok(cut) => cut,
            Err(failure) => {
                return Err(failure);
            },
        },
        None => picture,
    };
    let ghost cut_seen = cut@;
    let sized = resize(cut, &config.resize, width, height);
    let ghost sized_seen = outcome(sized);
    let fit = match sized {
        Ok(fit) => fit,
        Err(failure) => {
            proof {
                assert(resized(cut_seen, config@.resize, width, height, sized_seen));
            }
            return Err(failure);
        },
    };
    let ghost fit_seen = fit@;
    let placed = compose(base, fit, &config.placement, config.opacity);
    let ghost placed_seen = outcome(placed);
    let out = match placed {
        Ok(canvas) => Ok(flip_all(canvas, &config.flips)),
        Err(failure) => Err(failure),
    };
    proof {
        assert(composed(ground, fit_seen, config@.placement, config@.opacity, placed_seen));
        assert(resized(cut_seen, config@.resize, width, height, sized_seen));
    }
    out
}

/// Without an image and without flips, a solid background renders to a
/// canvas of exactly the screen's size whose every pixel is the colour.
pub proof fn lemma_solid_renders_uniform(
    plan: Plan,
    width: u16,
    height: u16,
    color: Rgb,
    out: Result<Grid<Rgb>, Failure>,
)
    requires
        plan.backdrop == Backdrop::Solid(color),
        plan.flips.len() == 0,
        rendered(plan, width, height, None, out),
    ensures
        out is Ok,
        out->Ok_0.width == width,
        out->Ok_0.height == height,
        out->Ok_0.wf(),
        out->Ok_0.uniform(color),
{
    let canvas = out->Ok_0;
    assert forall|x: int, y: int| canvas.contains(x, y) implies #[trigger] canvas.at(x, y)
        == color by {
        lemma_build_at(width as nat, height as nat, |x: int, y: int| color, x, y);
    }
}

/// Whatever the background description and the image, a canvas that was
/// rendered has exactly the size of the screen, with one opaque pixel for
/// every coordinate.
pub proof fn lemma_rendered_size(
    plan: Plan,
    width: u16,
    height: u16,
    image: Option<Grid<Rgba>>,
    after: Result<Grid<Rgb>, Failure>,
)
    requires
        rendered(plan, width, height, image, after),
        after is Ok,
    ensures
        after->Ok_0.wf(),
        after->Ok_0.width == width,
        after->Ok_0.height == height,
{
    let base = backdrop_grid(plan.backdrop, width as nat, height as nat);
    assert(base.wf() && base.width == width && base.height == height);
    match image {
        None => {
            lemma_flipped_all_size(base, plan.flips);
        },
        Some(picture) => {
            let cut = cut(plan, picture)->Ok_0;
            let sized = choose|sized: Result<Grid<Rgba>, Failure>| #[trigger]
                resized(cut, plan.resize, width, height, sized) && sized_after(
                    plan,
                    base,
                    sized,
                    after,
                );
            let fit = sized->Ok_0;
            let placed = choose|placed: Result<Grid<Rgb>, Failure>| #[trigger]
                composed(base, fit, plan.placement, plan.opacity, placed) && after
                    == flipped_after(plan, placed);
            let canvas = placed->Ok_0;
            assert(canvas.wf() && canvas.width == width && canvas.height == height);
            lemma_flipped_all_size(canvas, plan.flips);
        },
    }
}

} // verus!
