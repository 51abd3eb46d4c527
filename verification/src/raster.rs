//! Rasters: row-major grids of pixels with the origin at the top left.

use crate::color::{Rgb, Rgba};
use crate::failure::Failure;
use vstd::arithmetic::div_mod::lemma_fundamental_div_mod_converse;
use vstd::prelude::*;

verus! {

/// The mathematical model of a raster: `width * height` cells, stored row
/// after row.
#[verifier::ext_equal]
pub struct Grid<P> {
    pub width: nat,
    pub height: nat,
    pub cells: Seq<P>,
}

impl<P> Grid<P> {
    /// There is exactly one cell for every coordinate.
    pub open spec fn wf(self) -> bool {
        self.cells.len() == self.width * self.height
    }

    /// Whether `(x, y)` names a cell of the grid.
    pub open spec fn contains(self, x: int, y: int) -> bool {
        0 <= x < self.width && 0 <= y < self.height
    }

    /// The cell in column `x` of row `y`.
    pub open spec fn at(self, x: int, y: int) -> P {
        self.cells[y * self.width + x]
    }

    /// The grid of the given size whose cell at `(x, y)` is `cell(x, y)`.
    pub open spec fn build(width: nat, height: nat, cell: spec_fn(int, int) -> P) -> Grid<P> {
        Grid {
            width,
            height,
            cells: Seq::new(
                width * height,
                |i: int| cell(i % (width as int), i / (width as int)),
            ),
        }
    }

    /// Whether every cell of the grid is `value`.
    pub open spec fn uniform(self, value: P) -> bool {
        forall|x: int, y: int| self.contains(x, y) ==> #[trigger] self.at(x, y) == value
    }
}

/// The position of cell `(x, y)` in row-major order lies within the grid, and
/// the coordinates are recovered from it by division and remainder.
pub proof fn lemma_cell_index(width: int, height: int, x: int, y: int)
    requires
        0 <= x < width,
        0 <= y < height,
    ensures
        0 <= y * width + x < width * height,
        (y * width + x) % width == x,
        (y * width + x) / width == y,
{
    assert(0 <= y * width && y * width + width <= height * width && width * height == height
        * width) by (nonlinear_arith)
        requires
            0 <= y < height,
            0 < width,
    ;
    lemma_fundamental_div_mod_converse(y * width + x, width, y, x);
}

/// Every position below `width * height` is the position of exactly one cell.
pub proof fn lemma_index_cell(width: int, height: int, i: int)
    requires
        0 <= i < width * height,
        0 <= width,
        0 <= height,
    ensures
        0 <= i % width < width,
        0 <= i / width < height,
        (i / width) * width + i % width == i,
{
    assert(width > 0) by (nonlinear_arith)
        requires
            0 <= i < width * height,
            0 <= width,
    ;
    assert(0 <= i % width < width && 0 <= i / width < height && (i / width) * width + i % width
        == i) by (nonlinear_arith)
        requires
            0 <= i < width * height,
            0 < width,
            0 <= height,
    ;
}

/// A built grid is well formed and holds `cell(x, y)` at `(x, y)`.
pub proof fn lemma_build_at<P>(
    width: nat,
    height: nat,
    cell: spec_fn(int, int) -> P,
    x: int,
    y: int,
)
    requires
        0 <= x < width,
        0 <= y < height,
    ensures
        Grid::build(width, height, cell).wf(),
        Grid::build(width, height, cell).at(x, y) == cell(x, y),
{
    lemma_cell_index(width as int, height as int, x, y);
}

/// Two well-formed grids of one size that agree on every cell are equal.
pub proof fn lemma_grid_ext<P>(a: Grid<P>, b: Grid<P>)
    requires
        a.wf(),
        b.wf(),
        a.width == b.width,
        a.height == b.height,
        forall|x: int, y: int| a.contains(x, y) ==> #[trigger] a.at(x, y) == b.at(x, y),
    ensures
        a == b,
{
    assert forall|i: int| 0 <= i < a.cells.len() implies a.cells[i] == b.cells[i] by {
        lemma_index_cell(a.width as int, a.height as int, i);
        assert(a.at(i % (a.width as int), i / (a.width as int)) == b.at(
            i % (a.width as int),
            i / (a.width as int),
        ));
    }
    assert(a.cells =~= b.cells);
}

/// Whether the leading `cells` of a grid of the given width, in row-major
/// order, are those that `cell` describes.
pub open spec fn filled<P>(cells: Seq<P>, width: nat, cell: spec_fn(int, int) -> P) -> bool {
    forall|i: int|
        0 <= i < cells.len() ==> #[trigger] cells[i] == cell(
            i % (width as int),
            i / (width as int),
        )
}

/// Appending the cell for `(x, y)` to the cells before it keeps them filled.
pub proof fn lemma_fill_next<P>(
    cells: Seq<P>,
    width: nat,
    height: nat,
    cell: spec_fn(int, int) -> P,
    x: int,
    y: int,
)
    requires
        filled(cells, width, cell),
        0 <= x < width,
        0 <= y < height,
        cells.len() == y * width + x,
    ensures
        filled(cells.push(cell(x, y)), width, cell),
        cells.len() < width * height,
{
    lemma_cell_index(width as int, height as int, x, y);
}

/// Cells filled up to the grid's size are the built grid.
pub proof fn lemma_fill_done<P>(
    cells: Seq<P>,
    width: nat,
    height: nat,
    cell: spec_fn(int, int) -> P,
)
    requires
        filled(cells, width, cell),
        cells.len() == width * height,
    ensures
        (Grid { width, height, cells }) == Grid::build(width, height, cell),
{
    assert(cells =~= Grid::build(width, height, cell).cells);
}

/// A raster of pixels of type `P`.
pub struct Raster<P> {
    width: u32,
    height: u32,
    pixels: Vec<P>,
}

/// The opaque raster that is composited onto and finally installed.
pub type Canvas = Raster<Rgb>;

/// A source image with per-pixel alpha.
pub type Image = Raster<Rgba>;

impl<P> View for Raster<P> {
    type V = Grid<P>;

    closed spec fn view(&self) -> Grid<P> {
        Grid { width: self.width as nat, height: self.height as nat, cells: self.pixels@ }
    }
}

impl<P> Raster<P> {
    #[verifier::type_invariant]
    pub open spec fn inv(self) -> bool {
        self@.wf() && self@.width <= u32::MAX && self@.height <= u32::MAX
    }

    /// Makes a raster of the given size from its pixels in row-major order,
    /// or `None` if there is not exactly one pixel per coordinate.
    pub fn from_pixels(width: u32, height: u32, pixels: Vec<P>) -> (out: Option<Raster<P>>)
        ensures
            out is Some <==> pixels@.len() == width * height,
            out is Some ==> out->0@ == (Grid {
                width: width as nat,
                height: height as nat,
                cells: pixels@,
            }),
    {
        assert(width * height <= u64::MAX) by (nonlinear_arith)
            requires
                0 <= width <= u32::MAX,
                0 <= height <= u32::MAX,
        ;
        let fits = pixels.len() as u64 == (width as u64) * (height as u64);
        if fits {
            Some(Raster { width, height, pixels })
        } else {
            None
        }
    }

    /// Makes a raster of the given size from exactly one pixel per coordinate.
    pub fn assemble(width: u32, height: u32, pixels: Vec<P>) -> (out: Raster<P>)
        requires
            pixels@.len() == width * height,
        ensures
            out@ == (Grid { width: width as nat, height: height as nat, cells: pixels@ }),
    {
        Raster { width, height, pixels }
    }

    /// The number of columns.
    pub fn width(&self) -> (out: u32)
        ensures
            out == self@.width,
    {
        self.width
    }

    /// The number of rows.
    pub fn height(&self) -> (out: u32)
        ensures
            out == self@.height,
    {
        self.height
    }

    /// The pixels in row-major order.
    pub fn pixels(&self) -> (out: &Vec<P>)
        ensures
            out@ == self@.cells,
    {
        &self.pixels
    }

    /// Gives up the raster for its pixels in row-major order.
    pub fn into_pixels(self) -> (out: Vec<P>)
        ensures
            out@ == self@.cells,
    {
        self.pixels
    }
}

impl<P: Copy> Raster<P> {
    /// The pixel at `(x, y)`.
    pub fn get(&self, x: u32, y: u32) -> (out: P)
        requires
            self@.contains(x as int, y as int),
        ensures
            out == self@.at(x as int, y as int),
    {
        let _cells: usize = self.pixels.len();
        proof {
            use_type_invariant(self);
            lemma_cell_index(self.width as int, self.height as int, x as int, y as int);
        }
        let at: usize = (y as usize) * (self.width as usize) + (x as usize);
        self.pixels[at]
    }

    /// The pixel at `(x, y)`, or `None` outside the raster.
    pub fn pixel(&self, x: u32, y: u32) -> (out: Option<P>)
        ensures
            out == if self@.contains(x as int, y as int) {
                Some(self@.at(x as int, y as int))
            } else {
                None
            },
    {
        if x < self.width && y < self.height {
            Some(self.get(x, y))
        } else {
            None
        }
    }
}

/// What a stage that may fail gives, as its model: the model of the raster,
/// or the failure.
pub open spec fn outcome<P>(out: Result<Raster<P>, Failure>) -> Result<Grid<P>, Failure> {
    match out {
        Ok(raster) => Ok(raster@),
        Err(failure) => Err(failure),
    }
}

} // verus!
