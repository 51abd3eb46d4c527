//! Cropping and flipping.

use crate::failure::Failure;
use crate::geometry::{Area, Orientation};
use crate::raster::{filled, lemma_fill_done, lemma_fill_next, outcome, Grid, Raster};
use vstd::prelude::*;

verus! {

/// Whether `area` lies within the grid.
pub open spec fn within<P>(grid: Grid<P>, area: Area) -> bool {
    area.x + area.width <= grid.width && area.y + area.height <= grid.height
}

/// The part of the grid that `area` names; the whole grid if `area` is
/// empty.
pub open spec fn cropped<P>(grid: Grid<P>, area: Area) -> Grid<P> {
    if area.width == 0 || area.height == 0 {
        grid
    } else {
        Grid::build(
            area.width as nat,
            area.height as nat,
            |x: int, y: int| grid.at(area.x + x, area.y + y),
        )
    }
}

/// What cropping gives: the part that `area` names, or a refusal where
/// `area` reaches beyond the grid.
pub open spec fn cropping<P>(grid: Grid<P>, area: Area) -> Result<Grid<P>, Failure> {
    if within(grid, area) {
        Ok(cropped(grid, area))
    } else {
        Err(Failure::Geometry)
    }
}

/// Restricts a raster to `area`.
///
/// An area that reaches beyond the raster is rejected.  An area without
/// cells selects nothing to keep, and the raster is handed back as it is.
pub fn crop<P: Copy>(raster: Raster<P>, area: &Area) -> (out: Result<Raster<P>, Failure>)
    ensures
        outcome(out) == cropping(raster@, *area),
{
    if area.x as u64 + area.width as u64 > raster.width() as u64 || area.y as u64
        + area.height as u64 > raster.height() as u64 {
        return Err(Failure::Geometry);
    }
    if area.width == 0 || area.height == 0 {
        return Ok(raster);
    }
    let ghost cell = |x: int, y: int| raster@.at(area.x + x, area.y + y);
    proof {
        use_type_invariant(&raster);
    }
    let mut pixels: Vec<P> = Vec::new();
    let mut y: u32 = 0;
    while y < area.height
        invariant
            within(raster@, *area),
            raster@.width <= u32::MAX,
            raster@.height <= u32::MAX,
            y <= area.height,
            pixels@.len() == y * area.width,
            filled(pixels@, area.width as nat, cell),
            cell == (|x: int, y: int| raster@.at(area.x + x, area.y + y)),
        decreases area.height - y,
    {
        let mut x: u32 = 0;
        while x < area.width
            invariant
                within(raster@, *area),
            raster@.width <= u32::MAX,
            raster@.height <= u32::MAX,
                y < area.height,
                x <= area.width,
                pixels@.len() == y * area.width + x,
                filled(pixels@, area.width as nat, cell),
                cell == (|x: int, y: int| raster@.at(area.x + x, area.y + y)),
            decreases area.width - x,
        {
            proof {
                lemma_fill_next(
                    pixels@,
                    area.width as nat,
                    area.height as nat,
                    cell,
                    x as int,
                    y as int,
                );
            }
            pixels.push(raster.get(area.x + x, area.y + y));
            x = x + 1;
        }
        proof {
            assert(y * area.width + area.width == (y + 1) * area.width) by (nonlinear_arith);
        }
        y = y + 1;
    }
    proof {
        assert(area.height * area.width == area.width * area.height) by (nonlinear_arith);
        lemma_fill_done(pixels@, area.width as nat, area.height as nat, cell);
    }
    Ok(Raster::assemble(area.width, area.height, pixels))
}

/// The cell that a flip along `axis` moves to `(x, y)`.
pub open spec fn flipped_cell<P>(grid: Grid<P>, axis: Orientation, x: int, y: int) -> P {
    match axis {
        Orientation::Horizontal => grid.at(grid.width - 1 - x, y),
        Orientation::Vertical => grid.at(x, grid.height - 1 - y),
    }
}

/// The grid mirrored along `axis`: a horizontal flip exchanges left and
/// right, a vertical flip exchanges top and bottom.
pub open spec fn flipped<P>(grid: Grid<P>, axis: Orientation) -> Grid<P> {
    Grid::build(grid.width, grid.height, |x: int, y: int| flipped_cell(grid, axis, x, y))
}

/// The grid after the flips in `axes`, applied first to last.
pub open spec fn flipped_all<P>(grid: Grid<P>, axes: Seq<Orientation>) -> Grid<P>
    decreases axes.len(),
{
    if axes.len() == 0 {
        grid
    } else {
        flipped(flipped_all(grid, axes.drop_last()), axes.last())
    }
}

/// Mirrors a raster along `axis`.
pub fn flip<P: Copy>(raster: Raster<P>, axis: Orientation) -> (out: Raster<P>)
    ensures
        out@ == flipped(raster@, axis),
{
    let width: u32 = raster.width();
    let height: u32 = raster.height();
    let ghost cell = |x: int, y: int| flipped_cell(raster@, axis, x, y);
    let mut pixels: Vec<P> = Vec::new();
    let mut y: u32 = 0;
    while y < height
        invariant
            width == raster@.width,
            height == raster@.height,
            y <= height,
            pixels@.len() == y * width,
            filled(pixels@, width as nat, cell),
            cell == (|x: int, y: int| flipped_cell(raster@, axis, x, y)),
        decreases height - y,
    {
        let mut x: u32 = 0;
        while x < width
            invariant
                width == raster@.width,
                height == raster@.height,
                y < height,
                x <= width,
                pixels@.len() == y * width + x,
                filled(pixels@, width as nat, cell),
                cell == (|x: int, y: int| flipped_cell(raster@, axis, x, y)),
            decreases width - x,
        {
            let pixel = match axis {
                Orientation::Horizontal => raster.get(width - 1 - x, y),
                Orientation::Vertical => raster.get(x, height - 1 - y),
            };
            proof {
                lemma_fill_next(pixels@, width as nat, height as nat, cell, x as int, y as int);
            }
            pixels.push(pixel);
            x = x + 1;
        }
        proof {
            assert(y * width + width == (y + 1) * width) by (nonlinear_arith);
        }
        y = y + 1;
    }
    proof {
        assert(height * width == width * height) by (nonlinear_arith);
        lemma_fill_done(pixels@, width as nat, height as nat, cell);
    }
    Raster::assemble(width, height, pixels)
}

/// Mirrors a raster along each of `axes` in turn, first to last.
pub fn flip_all<P: Copy>(raster: Raster<P>, axes: &Vec<Orientation>) -> (out: Raster<P>)
    ensures
        out@ == flipped_all(raster@, axes@),
{
    let ghost start = raster@;
    let mut current = raster;
    let mut i: usize = 0;
    while i < axes.len()
        invariant
            i <= axes@.len(),
            current@ == flipped_all(start, axes@.take(i as int)),
        decreases axes@.len() - i,
    {
        proof {
            assert(axes@.take(i + 1).drop_last() =~= axes@.take(i as int));
        }
        current = flip(current, axes[i]);
        i = i + 1;
    }
    proof {
        assert(axes@.take(i as int) =~= axes@);
    }
    current
}

/// Flips keep the size of a grid, and what they give is well formed.
pub proof fn lemma_flipped_all_size<P>(grid: Grid<P>, axes: Seq<Orientation>)
    requires
        grid.wf(),
    ensures
        flipped_all(grid, axes).wf(),
        flipped_all(grid, axes).width == grid.width,
        flipped_all(grid, axes).height == grid.height,
    decreases axes.len(),
{
    if axes.len() > 0 {
        lemma_flipped_all_size(grid, axes.drop_last());
    }
}

} // verus!
