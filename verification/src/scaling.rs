//! Resizing images: the sizes to resize to, the resampling filter, and the
//! resampling itself.

use crate::color::Rgba;
use crate::failure::Failure;
use crate::frame::{
    complete, from_frame, keeps_flat_cells, keeps_flat_channels, lemma_keeps_flat, to_bytes,
    Frame,
};
use crate::raster::{outcome, Grid, Image, Raster};
use picto::processing::Scale;
use vstd::prelude::*;

verus! {

/// A resampling filter.
#[derive(Clone, Copy, Debug, PartialEq, Eq, Structural)]
pub enum Filter {
    /// The three-lobed Lanczos filter: slower and sharper.
    Lanczos3,
    /// The Catmull-Rom cubic filter: cheaper.
    Cubic,
}

/// The filter for resizing from one size to another: the sharper one where
/// the image grows on both axes, the cheaper one otherwise.
pub open spec fn filter_for(width: u32, height: u32, to_width: u32, to_height: u32) -> Filter {
    if width < to_width && height < to_height {
        Filter::Lanczos3
    } else {
        Filter::Cubic
    }
}

/// Chooses the filter for resizing from one size to another.
pub fn choose_filter(width: u32, height: u32, to_width: u32, to_height: u32) -> (out: Filter)
    ensures
        out == filter_for(width, height, to_width, to_height),
{
    if width < to_width && height < to_height {
        Filter::Lanczos3
    } else {
        Filter::Cubic
    }
}

/// The resize stage of the pipeline.
#[derive(Clone, Copy, Debug, PartialEq, Eq, Structural)]
pub enum Resize {
    /// The image keeps its size.
    Keep,
    /// The image is scaled, keeping its proportions, to the largest size
    /// that fits within the screen.
    Fit,
    /// The image is scaled to exactly this size, whatever its proportions.
    Exact { width: u32, height: u32 },
    /// Both sides of the image are multiplied by
    /// `numerator / denominator`.
    Scale { numerator: u32, denominator: u32 },
}

/// The largest size with the proportions of `width` by `height` that fits
/// within `within_width` by `within_height`, each side rounded down.
pub open spec fn fitted(width: nat, height: nat, within_width: nat, within_height: nat) -> (
    nat,
    nat,
) {
    if within_width * height > within_height * width {
        ((width * within_height / height) as nat, within_height)
    } else {
        (within_width, (height * within_width / width) as nat)
    }
}

/// A side of `size` cells multiplied by `numerator / denominator`, rounded
/// down.
pub open spec fn scaled(size: nat, numerator: nat, denominator: nat) -> nat {
    (size * numerator / denominator) as nat
}

/// What the resize stage asks for, given the image's and the screen's size.
pub enum Target {
    /// Nothing is to be done.
    Unchanged,
    /// The image is to be resampled to this size with this filter.
    Size { width: u32, height: u32, filter: Filter },
    /// The stage asks for a size that no image can have.
    Impossible,
}

/// What a resize stage asks for.  An image without pixels has no
/// proportions to keep and is left as it is by `Fit`.  The filter for `Fit`
/// is chosen against the screen, the others' against the size asked for.
pub open spec fn target_of(
    resize: Resize,
    width: u32,
    height: u32,
    screen_width: u16,
    screen_height: u16,
) -> Target {
    match resize {
        Resize::Keep => Target::Unchanged,
        Resize::Fit => if width == 0 || height == 0 {
            Target::Unchanged
        } else {
            let to = fitted(
                width as nat,
                height as nat,
                screen_width as nat,
                screen_height as nat,
            );
            Target::Size {
                width: to.0 as u32,
                height: to.1 as u32,
                filter: filter_for(width, height, screen_width as u32, screen_height as u32),
            }
        },
        Resize::Exact { width: to_width, height: to_height } => Target::Size {
            width: to_width,
            height: to_height,
            filter: filter_for(width, height, to_width, to_height),
        },
        Resize::Scale { numerator, denominator } => if denominator == 0 || scaled(
            width as nat,
            numerator as nat,
            denominator as nat,
        ) > u32::MAX || scaled(height as nat, numerator as nat, denominator as nat) > u32::MAX {
            Target::Impossible
        } else {
            Target::Size {
                width: scaled(width as nat, numerator as nat, denominator as nat) as u32,
                height: scaled(height as nat, numerator as nat, denominator as nat) as u32,
                filter: filter_for(
                    width,
                    height,
                    scaled(width as nat, numerator as nat, denominator as nat) as u32,
                    scaled(height as nat, numerator as nat, denominator as nat) as u32,
                ),
            }
        },
    }
}

/// A fitted size lies within the box it was fitted to, and touches it on at
/// least one axis.
pub proof fn lemma_fitted_within(width: nat, height: nat, within_width: nat, within_height: nat)
    requires
        width > 0,
        height > 0,
    ensures
        fitted(width, height, within_width, within_height).0 <= within_width,
        fitted(width, height, within_width, within_height).1 <= within_height,
        fitted(width, height, within_width, within_height).0 == within_width || fitted(
            width,
            height,
            within_width,
            within_height,
        ).1 == within_height,
{
    if within_width * height > within_height * width {
        assert(0 <= (width * within_height) / height <= within_width)
            by (nonlinear_arith)
            requires
                within_width * height > within_height * width,
                height > 0,
                width > 0,
                within_height >= 0,
                within_width >= 0,
        ;
    } else {
        assert(0 <= (height * within_width) / width <= within_height)
            by (nonlinear_arith)
            requires
                within_width * height <= within_height * width,
                height > 0,
                width > 0,
                within_height >= 0,
                within_width >= 0,
        ;
    }
}

fn scale_side(size: u32, numerator: u32, denominator: u32) -> (out: Option<u32>)
    requires
        denominator > 0,
    ensures
        out == if scaled(size as nat, numerator as nat, denominator as nat) <= u32::MAX {
            Some(scaled(size as nat, numerator as nat, denominator as nat) as u32)
        } else {
            None
        },
{
    assert(0 <= size * numerator <= 0xffff_ffff * 0xffff_ffff) by (nonlinear_arith)
        requires
            0 <= size <= 0xffff_ffff,
            0 <= numerator <= 0xffff_ffff,
    ;
    let product: u64 = (size as u64) * (numerator as u64);
    let side: u64 = product / (denominator as u64);
    if side <= 0xffff_ffff {
        Some(side as u32)
    } else {
        None
    }
}

/// Works out what a resize stage asks for.
pub fn target(
    resize: &Resize,
    width: u32,
    height: u32,
    screen_width: u16,
    screen_height: u16,
) -> (out: Target)
    ensures
        out == target_of(*resize, width, height, screen_width, screen_height),
{
    match resize {
        Resize::Keep => Target::Unchanged,
        Resize::Fit => {
            if width == 0 || height == 0 {
                return Target::Unchanged;
            }
            proof {
                lemma_fitted_within(
                    width as nat,
                    height as nat,
                    screen_width as nat,
                    screen_height as nat,
                );
            }
            assert(screen_width * height <= 0xffff * 0xffff_ffff) by (nonlinear_arith)
                requires
                    0 <= screen_width <= 0xffff,
                    0 <= height <= 0xffff_ffff,
            ;
            assert(screen_height * width <= 0xffff * 0xffff_ffff) by (nonlinear_arith)
                requires
                    0 <= screen_height <= 0xffff,
                    0 <= width <= 0xffff_ffff,
            ;
            let across: u64 = (screen_width as u64) * (height as u64);
            let down: u64 = (screen_height as u64) * (width as u64);
            let filter = choose_filter(width, height, screen_width as u32, screen_height as u32);
            if across > down {
                assert(width * screen_height == screen_height * width) by (nonlinear_arith);
                Target::Size {
                    width: (down / (height as u64)) as u32,
                    height: screen_height as u32,
                    filter,
                }
            } else {
                assert(height * screen_width == screen_width * height) by (nonlinear_arith);
                Target::Size {
                    width: screen_width as u32,
                    height: (across / (width as u64)) as u32,
                    filter,
                }
            }
        },
        Resize::Exact { width: to_width, height: to_height } => Target::Size {
            width: *to_width,
            height: *to_height,
            filter: choose_filter(width, height, *to_width, *to_height),
        },
        Resize::Scale { numerator, denominator } => {
            if *denominator == 0 {
                return Target::Impossible;
            }
            match (
                scale_side(width, *numerator, *denominator),
                scale_side(height, *numerator, *denominator),
            ) {
                (Some(to_width), Some(to_height)) => Target::Size {
                    width: to_width,
                    height: to_height,
                    filter: choose_filter(width, height, to_width, to_height),
                },
                _ => Target::Impossible,
            }
        },
    }
}

/// Whether `width` by `height` pixels of four bytes can be held at once: no
/// vector is longer than the largest signed size.
pub open spec fn holdable(width: u32, height: u32) -> bool {
    width * height * 4 <= isize::MAX
}

/// Whether an image of `width` by `height` pixels can be resampled to
/// `to_width` by `to_height` pixels: the image that is asked for and the one
/// that stands between the two, resampled along one axis only, can each be
/// held at once.
pub open spec fn in_reach(width: u32, height: u32, to_width: u32, to_height: u32) -> bool {
    holdable(width, to_height) && holdable(to_width, to_height)
}

fn can_hold(width: u32, height: u32) -> (out: bool)
    ensures
        out == holdable(width, height),
{
    assert(width * height * 4 <= 0xffff_ffff * 0xffff_ffff * 4) by (nonlinear_arith)
        requires
            0 <= width <= 0xffff_ffff,
            0 <= height <= 0xffff_ffff,
    ;
    (width as u128) * (height as u128) * 4 <= isize::MAX as u128
}

/// Calls picto's `Scale::resize` with its `Lanczos3` scaler on an image
/// held as bytes.  Believed of it: it returns the bytes of an image of
/// exactly the size asked for; and a channel that is none at every pixel
/// handed in, or full at every pixel, is the same at every pixel handed
/// back, because picto divides each weighted sum by the sum of the same
/// weights.  Nothing more is claimed of the colours, and they are given no
/// name: the kernel is computed with the single-precision sine, whose
/// precision the standard library leaves open, from one platform to another
/// and from one call to the next, so that equal arguments need not give
/// equal colours.  Empty sizes, on which picto fails, and sizes out of
/// reach are left out.
#[verifier::external_body]
fn resize_lanczos3(
    width: u32,
    height: u32,
    data: Vec<u8>,
    to_width: u32,
    to_height: u32,
) -> (out: Vec<u8>)
    requires
        width > 0,
        height > 0,
        to_width > 0,
        to_height > 0,
        complete(width, height, data@),
        in_reach(width, height, to_width, to_height),
    ensures
        complete(to_width, to_height, out@),
        keeps_flat_channels(data@, out@),
{
    let source: picto::buffer::Rgba = picto::Buffer::from_raw(width, height, data).unwrap();
    (&source).resize::<picto::processing::scaler::Lanczos3>(to_width, to_height).into_raw()
}

/// Calls picto's `Scale::resize` with its `Cubic` scaler on an image held
/// as bytes.  Believed of it: it returns the bytes of an image of exactly
/// the size asked for; and a channel that is none at every pixel handed in,
/// or full at every pixel, is the same at every pixel handed back, because
/// picto divides each weighted sum by the sum of the same weights.  Nothing
/// more is claimed of the colours, and they are given no name: the kernel
/// is computed with the single-precision integer power, whose precision the
/// standard library leaves open, from one platform to another and from one
/// call to the next, so that equal arguments need not give equal colours.
/// Empty sizes, on which picto fails, and sizes out of reach are left out.
#[verifier::external_body]
fn resize_cubic(
    width: u32,
    height: u32,
    data: Vec<u8>,
    to_width: u32,
    to_height: u32,
) -> (out: Vec<u8>)
    requires
        width > 0,
        height > 0,
        to_width > 0,
        to_height > 0,
        complete(width, height, data@),
        in_reach(width, height, to_width, to_height),
    ensures
        complete(to_width, to_height, out@),
        keeps_flat_channels(data@, out@),
{
    let source: picto::buffer::Rgba = picto::Buffer::from_raw(width, height, data).unwrap();
    (&source).resize::<picto::processing::scaler::Cubic>(to_width, to_height).into_raw()
}

/// What resampling `before` to `width` by `height` may give.
///
/// A size without pixels gives the image of that size, which has none.  An
/// image without pixels cannot be sampled and stays as it is.  Sizes out of
/// reach are refused.  Otherwise the result has exactly the size asked for,
/// and every channel that is none in every cell of the image, or full in
/// every cell, is the same in every cell of the result; the other colours
/// are the resampler's.
pub open spec fn resampled(
    before: Grid<Rgba>,
    width: u32,
    height: u32,
    after: Result<Grid<Rgba>, Failure>,
) -> bool {
    if width == 0 || height == 0 {
        after == Ok::<Grid<Rgba>, Failure>(
            Grid { width: width as nat, height: height as nat, cells: Seq::empty() },
        )
    } else if before.width == 0 || before.height == 0 {
        after == Ok::<Grid<Rgba>, Failure>(before)
    } else if !in_reach(before.width as u32, before.height as u32, width, height) {
        after == Err::<Grid<Rgba>, Failure>(Failure::Geometry)
    } else {
        after is Ok && after->Ok_0.width == width && after->Ok_0.height == height
            && after->Ok_0.wf() && keeps_flat_cells(before.cells, after->Ok_0.cells)
    }
}

/// Resamples an image to `width` by `height` with the given filter.
pub fn resample(
    image: Image,
    width: u32,
    height: u32,
    filter: Filter,
) -> (out: Result<Image, Failure>)
    ensures
        resampled(image@, width, height, outcome(out)),
{
    proof {
        use_type_invariant(&image);
    }
    if width == 0 || height == 0 {
        assert(width * height == 0) by (nonlinear_arith)
            requires
                width == 0 || height == 0,
        ;
        return Ok(Raster::assemble(width, height, Vec::new()));
    }
    if image.width() == 0 || image.height() == 0 {
        return Ok(image);
    }
    if !can_hold(image.width(), height) || !can_hold(width, height) {
        return Err(Failure::Geometry);
    }
    let from_width: u32 = image.width();
    let from_height: u32 = image.height();
    let bytes: Vec<u8> = to_bytes(&image);
    assert(from_width * from_height * 4 == 4 * (from_width * from_height)) by (nonlinear_arith);
    let data: Vec<u8> = match filter {
        Filter::Lanczos3 => resize_lanczos3(from_width, from_height, bytes, width, height),
        Filter::Cubic => resize_cubic(from_width, from_height, bytes, width, height),
    };
    proof {
        lemma_keeps_flat(image@.cells, data@);
    }
    match from_frame(Frame { width, height, data }) {
        Some(resized) => {
            proof {
                use_type_invariant(&resized);
            }
            Ok(resized)
        },
        None => Err(Failure::Geometry),
    }
}

/// What the resize stage may give: the image as it was where nothing is to
/// be done, a refusal where the size asked for is impossible, and otherwise
/// what resampling to that size gives.
pub open spec fn resized(
    before: Grid<Rgba>,
    resize: Resize,
    screen_width: u16,
    screen_height: u16,
    after: Result<Grid<Rgba>, Failure>,
) -> bool {
    match target_of(
        resize,
        before.width as u32,
        before.height as u32,
        screen_width,
        screen_height,
    ) {
        Target::Unchanged => after == Ok::<Grid<Rgba>, Failure>(before),
        Target::Size { width, height, filter } => resampled(before, width, height, after),
        Target::Impossible => after == Err::<Grid<Rgba>, Failure>(Failure::Geometry),
    }
}

/// Runs the resize stage on an image.
pub fn resize(
    image: Image,
    stage: &Resize,
    screen_width: u16,
    screen_height: u16,
) -> (out: Result<Image, Failure>)
    ensures
        resized(image@, *stage, screen_width, screen_height, outcome(out)),
{
    match target(stage, image.width(), image.height(), screen_width, screen_height) {
        Target::Unchanged => Ok(image),
        Target::Size { width, height, filter } => resample(image, width, height, filter),
        Target::Impossible => Err(Failure::Geometry),
    }
}

} // verus!
