//! Placing an image over a canvas.

use crate::color::{
    blended, faded, lemma_opaque_replaces, lemma_transparent_keeps, with_opacity, Rgb, Rgba,
};
use crate::failure::Failure;
use crate::frame::{channel, flat_cells, keeps_flat_cells};
use crate::raster::{
    lemma_build_at, lemma_cell_index, lemma_index_cell, outcome, Canvas, Grid, Image, Raster,
};
use crate::scaling::{choose_filter, in_reach, resample};
use vstd::arithmetic::div_mod::{
    lemma_add_mod_noop, lemma_fundamental_div_mod, lemma_fundamental_div_mod_converse,
    lemma_mod_twice,
};
use vstd::prelude::*;

verus! {

/// How an image is positioned over the canvas.
#[derive(Clone, Copy, Debug, PartialEq, Eq, Structural)]
pub enum Placement {
    /// The image covers the canvas from its top-left corner; the compositor
    /// resizes it to the canvas' size first.
    Stretch,
    /// The image's centre lies on the canvas' centre.
    Center,
    /// The image's top-left corner lies at `(x, y)` on the canvas.
    Position { x: i64, y: i64 },
    /// The image repeats over the whole canvas, shifted by `(x, y)`.
    Tile { x: i64, y: i64 },
}

/// `i` wrapped into `0..s`, also for negative `i`.
pub open spec fn wrapped(i: int, s: int) -> int {
    ((i % s) + s) % s
}

/// Where an image of size `image` starts on a canvas of size `canvas` along
/// one axis when their centres coincide: half the difference, rounded down.
/// It is negative if the image is larger.
pub open spec fn centered_offset(canvas: int, image: int) -> int {
    (canvas - image) / 2
}

/// The image cell that lies on canvas cell `(x, y)` when the image's corner
/// is at `(left, top)`, if the image reaches that far.
pub open spec fn footprint(
    image_width: nat,
    image_height: nat,
    left: int,
    top: int,
    x: int,
    y: int,
) -> Option<(int, int)> {
    if left <= x < left + image_width && top <= y < top + image_height {
        Some((x - left, y - top))
    } else {
        None
    }
}

/// The image cell that is drawn on canvas cell `(x, y)`, if any.
pub open spec fn source_cell(
    placement: Placement,
    canvas_width: nat,
    canvas_height: nat,
    image_width: nat,
    image_height: nat,
    x: int,
    y: int,
) -> Option<(int, int)> {
    match placement {
        Placement::Stretch => footprint(image_width, image_height, 0, 0, x, y),
        Placement::Center => footprint(
            image_width,
            image_height,
            centered_offset(canvas_width as int, image_width as int),
            centered_offset(canvas_height as int, image_height as int),
            x,
            y,
        ),
        Placement::Position { x: left, y: top } => footprint(
            image_width,
            image_height,
            left as int,
            top as int,
            x,
            y,
        ),
        Placement::Tile { x: x_offset, y: y_offset } => if image_width == 0 || image_height == 0 {
            None
        } else {
            Some(
                (
                    wrapped(x + x_offset, image_width as int),
                    wrapped(y + y_offset, image_height as int),
                ),
            )
        },
    }
}

/// The colour of canvas cell `(x, y)` after the image has been placed: the
/// image cell drawn there, faded to the overlay opacity and composited over
/// the canvas, or the untouched canvas where no image cell is drawn.
pub open spec fn placed_cell(
    canvas: Grid<Rgb>,
    image: Grid<Rgba>,
    placement: Placement,
    opacity: u8,
    x: int,
    y: int,
) -> Rgb {
    match source_cell(placement, canvas.width, canvas.height, image.width, image.height, x, y) {
        Some((sx, sy)) => blended(faded(image.at(sx, sy), opacity), canvas.at(x, y)),
        None => canvas.at(x, y),
    }
}

/// The canvas after the image has been placed on it.
pub open spec fn placed(
    canvas: Grid<Rgb>,
    image: Grid<Rgba>,
    placement: Placement,
    opacity: u8,
) -> Grid<Rgb> {
    Grid::build(
        canvas.width,
        canvas.height,
        |x: int, y: int| placed_cell(canvas, image, placement, opacity, x, y),
    )
}

/// `wrapped` is the remainder of the floored division: it lies in `0..s` and
/// differs from `i` by a multiple of `s`.
pub proof fn lemma_wrapped(i: int, s: int)
    requires
        s > 0,
    ensures
        0 <= wrapped(i, s) < s,
        wrapped(i, s) == i % s,
        (i - wrapped(i, s)) % s == 0,
{
    lemma_fundamental_div_mod(i, s);
    lemma_fundamental_div_mod_converse((i % s) + s, s, 1, i % s);
    assert(s * (i / s) == (i / s) * s) by (nonlinear_arith);
    lemma_fundamental_div_mod_converse(i - i % s, s, i / s, 0);
}

/// Wraps `i` into `0..size`.
pub fn wrap(i: i64, size: u32) -> (out: u32)
    requires
        size > 0,
    ensures
        out == wrapped(i as int, size as int),
{
    let s: i64 = size as i64;
    let r: i64 = i % s;
    proof {
        lemma_wrapped(i as int, s as int);
        if i < 0 {
            let m = (-i) % (s as int);
            let q = (-i) / (s as int);
            lemma_fundamental_div_mod(-i, s as int);
            if m == 0 {
                assert(i == (-q) * s + 0) by (nonlinear_arith)
                    requires
                        -i == s * q + m,
                        m == 0,
                ;
                lemma_fundamental_div_mod_converse(i as int, s as int, -q, 0);
            } else {
                assert(i == (-q - 1) * s + (s - m)) by (nonlinear_arith)
                    requires
                        -i == s * q + m,
                ;
                lemma_fundamental_div_mod_converse(i as int, s as int, -q - 1, s - m);
            }
        }
    }
    if r < 0 {
        (r + s) as u32
    } else {
        r as u32
    }
}

/// The offset that centres `image` cells within `canvas` cells.
pub fn center_offset(canvas: u32, image: u32) -> (out: i64)
    ensures
        out == centered_offset(canvas as int, image as int),
{
    if canvas >= image {
        ((canvas - image) / 2) as i64
    } else {
        let gap: u32 = image - canvas;
        -((gap / 2 + gap % 2) as i64)
    }
}

/// The image coordinate that lies on canvas coordinate `at` along one axis
/// when the image of the given size starts at `start`, if it reaches there.
fn reach(start: i64, size: u32, at: u32) -> (out: Option<u32>)
    ensures
        out == if start <= at < start + size {
            Some((at - start) as u32)
        } else {
            None::<u32>
        },
{
    let a: i128 = at as i128;
    let s: i128 = start as i128;
    if s <= a && a - s < size as i128 {
        Some((a - s) as u32)
    } else {
        None
    }
}

/// A placement resolved against the sizes of one canvas and one image.
enum Layout {
    Nowhere,
    Corner { left: i64, top: i64 },
    Repeat { x: u32, y: u32 },
}

impl Layout {
    spec fn source(self, image_width: nat, image_height: nat, x: int, y: int) -> Option<
        (int, int),
    > {
        match self {
            Layout::Nowhere => None,
            Layout::Corner { left, top } => footprint(
                image_width,
                image_height,
                left as int,
                top as int,
                x,
                y,
            ),
            Layout::Repeat { x: shift_x, y: shift_y } => Some(
                ((x + shift_x) % (image_width as int), (y + shift_y) % (image_height as int)),
            ),
        }
    }

    spec fn fits(self, image_width: nat, image_height: nat) -> bool {
        self matches Layout::Repeat { x, y } ==> x < image_width && y < image_height
    }

    spec fn resolves(
        self,
        placement: Placement,
        canvas_width: nat,
        canvas_height: nat,
        image_width: nat,
        image_height: nat,
    ) -> bool {
        &&& self.fits(image_width, image_height)
        &&& forall|x: int, y: int|
            0 <= x && 0 <= y ==> #[trigger] self.source(image_width, image_height, x, y)
                == source_cell(
                placement,
                canvas_width,
                canvas_height,
                image_width,
                image_height,
                x,
                y,
            )
    }
}

proof fn lemma_shifted_wrap(at: int, offset: int, size: int)
    requires
        size > 0,
        0 <= at,
    ensures
        (at + wrapped(offset, size)) % size == wrapped(at + offset, size),
{
    lemma_wrapped(offset, size);
    lemma_wrapped(at + offset, size);
    lemma_add_mod_noop(at, offset, size);
    lemma_add_mod_noop(at, offset % size, size);
    lemma_mod_twice(offset, size);
}

fn resolve(placement: &Placement, canvas: &Canvas, image: &Image) -> (out: Layout)
    ensures
        out.resolves(*placement, canvas@.width, canvas@.height, image@.width, image@.height),
{
    match placement {
        Placement::Stretch => Layout::Corner { left: 0, top: 0 },
        Placement::Center => Layout::Corner {
            left: center_offset(canvas.width(), image.width()),
            top: center_offset(canvas.height(), image.height()),
        },
        Placement::Position { x, y } => Layout::Corner { left: *x, top: *y },
        Placement::Tile { x, y } => {
            if image.width() == 0 || image.height() == 0 {
                Layout::Nowhere
            } else {
                let shift_x = wrap(*x, image.width());
                let shift_y = wrap(*y, image.height());
                proof {
                    lemma_wrapped(*x as int, image@.width as int);
                    lemma_wrapped(*y as int, image@.height as int);
                    assert forall|cx: int, cy: int| 0 <= cx && 0 <= cy implies #[trigger] (
                    Layout::Repeat { x: shift_x, y: shift_y }).source(
                        image@.width,
                        image@.height,
                        cx,
                        cy,
                    ) == source_cell(
                        *placement,
                        canvas@.width,
                        canvas@.height,
                        image@.width,
                        image@.height,
                        cx,
                        cy,
                    ) by {
                        lemma_shifted_wrap(cx, *x as int, image@.width as int);
                        lemma_shifted_wrap(cy, *y as int, image@.height as int);
                    }
                }
                Layout::Repeat { x: shift_x, y: shift_y }
            }
        },
    }
}

/// The image coordinates drawn on canvas cell `(x, y)` under a layout.
fn locate(layout: &Layout, image: &Image, x: u32, y: u32) -> (out: Option<(u32, u32)>)
    requires
        layout.fits(image@.width, image@.height),
    ensures
        match layout.source(image@.width, image@.height, x as int, y as int) {
            Some((sx, sy)) => out == Some((sx as u32, sy as u32)) && image@.contains(sx, sy),
            None => out is None,
        },
{
    match layout {
        Layout::Nowhere => None,
        Layout::Corner { left, top } => {
            match (reach(*left, image.width(), x), reach(*top, image.height(), y)) {
                (Some(sx), Some(sy)) => Some((sx, sy)),
                _ => None,
            }
        },
        Layout::Repeat { x: shift_x, y: shift_y } => {
            let sx: u64 = (x as u64 + *shift_x as u64) % (image.width() as u64);
            let sy: u64 = (y as u64 + *shift_y as u64) % (image.height() as u64);
            Some((sx as u32, sy as u32))
        },
    }
}

/// Whether the pixels up to position `at`, in row-major order, are those of
/// the placed canvas, and the others still those of the canvas before.
spec fn placed_so_far(
    pixels: Seq<Rgb>,
    before: Grid<Rgb>,
    above: Grid<Rgba>,
    placement: Placement,
    opacity: u8,
    at: int,
) -> bool {
    &&& pixels.len() == before.cells.len()
    &&& forall|i: int|
        0 <= i < at && i < pixels.len() ==> #[trigger] pixels[i] == placed_cell(
            before,
            above,
            placement,
            opacity,
            i % (before.width as int),
            i / (before.width as int),
        )
    &&& forall|i: int| at <= i < pixels.len() ==> #[trigger] pixels[i] == before.cells[i]
}

/// Places `image` on `canvas`: every canvas pixel on which the placement
/// draws an image pixel becomes that pixel, faded to `opacity` and composited
/// over what was there; all other pixels stay as they are.  No pixel outside
/// either raster is read or written.
///
/// `Placement::Stretch` draws the image from the top-left corner as it is.
pub fn place(canvas: Canvas, image: &Image, placement: &Placement, opacity: u8) -> (out: Canvas)
    ensures
        out@ == placed(canvas@, image@, *placement, opacity),
{
    let layout = resolve(placement, &canvas, image);
    let width: u32 = canvas.width();
    let height: u32 = canvas.height();
    let ghost before = canvas@;
    proof {
        use_type_invariant(&canvas);
        use_type_invariant(image);
    }
    let mut pixels: Vec<Rgb> = canvas.into_pixels();
    let total: usize = pixels.len();
    let mut at: usize = 0;
    let mut y: u32 = 0;
    while y < height
        invariant
            before.wf(),
            before.cells.len() == total,
            before.width == width,
            before.height == height,
            image@.width <= u32::MAX,
            image@.height <= u32::MAX,
            layout.resolves(*placement, before.width, before.height, image@.width, image@.height),
            placed_so_far(pixels@, before, image@, *placement, opacity, at as int),
            y <= height,
            at == y * width,
        decreases height - y,
    {
        let mut x: u32 = 0;
        while x < width
            invariant
                before.wf(),
                before.cells.len() == total,
                before.width == width,
                before.height == height,
                image@.width <= u32::MAX,
                image@.height <= u32::MAX,
                layout.resolves(
                    *placement,
                    before.width,
                    before.height,
                    image@.width,
                    image@.height,
                ),
                placed_so_far(pixels@, before, image@, *placement, opacity, at as int),
                y < height,
                x <= width,
                at == y * width + x,
            decreases width - x,
        {
            proof {
                lemma_cell_index(width as int, height as int, x as int, y as int);
                assert(layout.source(image@.width, image@.height, x as int, y as int)
                    == source_cell(
                    *placement,
                    before.width,
                    before.height,
                    image@.width,
                    image@.height,
                    x as int,
                    y as int,
                ));
            }
            match locate(&layout, image, x, y) {
                Some((sx, sy)) => {
                    let source: Rgba = image.get(sx, sy);
                    let below: Rgb = pixels[at];
                    pixels.set(at, with_opacity(&source, opacity).over(below));
                },
                None => {},
            }
            at = at + 1;
            x = x + 1;
        }
        proof {
            assert(y * width + width == (y + 1) * width) by (nonlinear_arith);
        }
        y = y + 1;
    }
    proof {
        assert(height * width == width * height) by (nonlinear_arith);
        assert(pixels@ =~= placed(before, image@, *placement, opacity).cells);
    }
    Raster::assemble(width, height, pixels)
}

/// A cell of the placed canvas is the cell that `placed_cell` describes.
pub proof fn lemma_placed_at(
    canvas: Grid<Rgb>,
    image: Grid<Rgba>,
    placement: Placement,
    opacity: u8,
    x: int,
    y: int,
)
    requires
        canvas.contains(x, y),
    ensures
        placed(canvas, image, placement, opacity).wf(),
        placed(canvas, image, placement, opacity).at(x, y) == placed_cell(
            canvas,
            image,
            placement,
            opacity,
            x,
            y,
        ),
{
    lemma_build_at(
        canvas.width,
        canvas.height,
        |x: int, y: int| placed_cell(canvas, image, placement, opacity, x, y),
        x,
        y,
    );
}

/// Whatever the placement, the offsets and the two sizes, a canvas cell is
/// drawn from a cell that lies inside the image.
pub proof fn lemma_source_inside(
    placement: Placement,
    canvas_width: nat,
    canvas_height: nat,
    image_width: nat,
    image_height: nat,
    x: int,
    y: int,
)
    ensures
        source_cell(placement, canvas_width, canvas_height, image_width, image_height, x, y)
            matches Some((sx, sy)) ==> 0 <= sx < image_width && 0 <= sy < image_height,
{
    if let Placement::Tile { x: x_offset, y: y_offset } = placement {
        if image_width > 0 && image_height > 0 {
            lemma_wrapped(x + x_offset, image_width as int);
            lemma_wrapped(y + y_offset, image_height as int);
        }
    }
}

/// Tiling draws every canvas cell `(x, y)` from the image cell
/// `(((x + xo) mod w + w) mod w, ((y + yo) mod h + h) mod h)`, for negative
/// offsets as for others, and that cell lies inside the image.
pub proof fn lemma_tile_samples(
    canvas: Grid<Rgb>,
    image: Grid<Rgba>,
    x_offset: i64,
    y_offset: i64,
    opacity: u8,
    x: int,
    y: int,
)
    requires
        canvas.contains(x, y),
        image.width > 0,
        image.height > 0,
    ensures
        image.contains(
            wrapped(x + x_offset, image.width as int),
            wrapped(y + y_offset, image.height as int),
        ),
        placed(canvas, image, Placement::Tile { x: x_offset, y: y_offset }, opacity).at(x, y)
            == blended(
            faded(
                image.at(
                    wrapped(x + x_offset, image.width as int),
                    wrapped(y + y_offset, image.height as int),
                ),
                opacity,
            ),
            canvas.at(x, y),
        ),
{
    let placement = Placement::Tile { x: x_offset, y: y_offset };
    lemma_placed_at(canvas, image, placement, opacity, x, y);
    lemma_source_inside(placement, canvas.width, canvas.height, image.width, image.height, x, y);
}

/// Centring draws exactly the region where image and canvas overlap, also
/// when the image is larger than the canvas on either axis: a canvas cell
/// inside the image's footprint is drawn from a cell inside the image, and
/// every other canvas cell keeps its colour.
pub proof fn lemma_center_draws_overlap(
    canvas: Grid<Rgb>,
    image: Grid<Rgba>,
    opacity: u8,
    x: int,
    y: int,
)
    requires
        canvas.contains(x, y),
    ensures
        ({
            let left = centered_offset(canvas.width as int, image.width as int);
            let top = centered_offset(canvas.height as int, image.height as int);
            let after = placed(canvas, image, Placement::Center, opacity);
            if left <= x < left + image.width && top <= y < top + image.height {
                &&& image.contains(x - left, y - top)
                &&& after.at(x, y) == blended(
                    faded(image.at(x - left, y - top), opacity),
                    canvas.at(x, y),
                )
            } else {
                after.at(x, y) == canvas.at(x, y)
            }
        }),
{
    lemma_placed_at(canvas, image, Placement::Center, opacity, x, y);
}

/// At opacity 0 the image is fully transparent: placing it leaves the canvas
/// as it is.
pub proof fn lemma_zero_opacity_keeps_canvas(
    canvas: Grid<Rgb>,
    image: Grid<Rgba>,
    placement: Placement,
)
    requires
        canvas.wf(),
    ensures
        placed(canvas, image, placement, 0) == canvas,
{
    let after = placed(canvas, image, placement, 0);
    assert forall|i: int| 0 <= i < canvas.cells.len() implies after.cells[i]
        == canvas.cells[i] by {
        lemma_index_cell(canvas.width as int, canvas.height as int, i);
        let x = i % (canvas.width as int);
        let y = i / (canvas.width as int);
        assert(canvas.at(x, y) == canvas.cells[i]);
        if let Some((sx, sy)) = source_cell(
            placement,
            canvas.width,
            canvas.height,
            image.width,
            image.height,
            x,
            y,
        ) {
            lemma_transparent_keeps(faded(image.at(sx, sy), 0), canvas.at(x, y));
        }
    }
    assert(after.cells =~= canvas.cells);
}

/// At full opacity an opaque image pixel replaces the canvas pixel on which
/// it is drawn.
pub proof fn lemma_full_opacity_replaces(
    canvas: Grid<Rgb>,
    image: Grid<Rgba>,
    placement: Placement,
    x: int,
    y: int,
)
    requires
        canvas.contains(x, y),
    ensures
        source_cell(placement, canvas.width, canvas.height, image.width, image.height, x, y)
            matches Some((sx, sy)) ==> image.at(sx, sy).alpha == 255 ==> placed(
            canvas,
            image,
            placement,
            255,
        ).at(x, y) == image.at(sx, sy).opaque(),
{
    lemma_placed_at(canvas, image, placement, 255, x, y);
    if let Some((sx, sy)) = source_cell(
        placement,
        canvas.width,
        canvas.height,
        image.width,
        image.height,
        x,
        y,
    ) {
        if image.at(sx, sy).alpha == 255 {
            assert(faded(image.at(sx, sy), 255) == image.at(sx, sy));
            lemma_opaque_replaces(image.at(sx, sy), canvas.at(x, y));
        }
    }
}

/// A placement that draws no cell at all, as that of an image without
/// pixels or of one that lies wholly beside the canvas, leaves the canvas as
/// it is.
pub proof fn lemma_nothing_drawn(
    canvas: Grid<Rgb>,
    image: Grid<Rgba>,
    placement: Placement,
    opacity: u8,
)
    requires
        canvas.wf(),
        forall|x: int, y: int|
            canvas.contains(x, y) ==> #[trigger] source_cell(
                placement,
                canvas.width,
                canvas.height,
                image.width,
                image.height,
                x,
                y,
            ) is None,
    ensures
        placed(canvas, image, placement, opacity) == canvas,
{
    let after = placed(canvas, image, placement, opacity);
    assert forall|i: int| 0 <= i < canvas.cells.len() implies after.cells[i]
        == canvas.cells[i] by {
        lemma_index_cell(canvas.width as int, canvas.height as int, i);
        let x = i % (canvas.width as int);
        let y = i / (canvas.width as int);
        assert(canvas.at(x, y) == canvas.cells[i]);
        assert(source_cell(
            placement,
            canvas.width,
            canvas.height,
            image.width,
            image.height,
            x,
            y,
        ) is None);
    }
    assert(after.cells =~= canvas.cells);
}

/// What stretching `image` over `canvas` may give.
///
/// Where either has no pixels there is nothing to stretch or nothing to
/// cover, and the canvas stays as it is.  Sizes out of the resampler's
/// reach are refused.  Otherwise the canvas is covered, corner to corner, by
/// an image of exactly its size: the resampler's, in which every channel
/// that is none in every cell of `image`, or full in every cell, is the
/// same in every cell.
pub open spec fn stretched(
    canvas: Grid<Rgb>,
    image: Grid<Rgba>,
    opacity: u8,
    after: Result<Grid<Rgb>, Failure>,
) -> bool {
    if canvas.width == 0 || canvas.height == 0 || image.width == 0 || image.height == 0 {
        after == Ok::<Grid<Rgb>, Failure>(canvas)
    } else if !in_reach(
        image.width as u32,
        image.height as u32,
        canvas.width as u32,
        canvas.height as u32,
    ) {
        after == Err::<Grid<Rgb>, Failure>(Failure::Geometry)
    } else {
        exists|cover: Grid<Rgba>|
            cover.wf() && cover.width == canvas.width && cover.height == canvas.height
                && keeps_flat_cells(image.cells, cover.cells) && after == Ok::<
                Grid<Rgb>,
                Failure,
            >(#[trigger] placed(canvas, cover, Placement::Stretch, opacity))
    }
}

/// What the placement stage may give: for `Placement::Stretch` what
/// stretching gives, for every other placement the canvas with the image
/// placed on it.
pub open spec fn composed(
    canvas: Grid<Rgb>,
    image: Grid<Rgba>,
    placement: Placement,
    opacity: u8,
    after: Result<Grid<Rgb>, Failure>,
) -> bool {
    if placement is Stretch {
        stretched(canvas, image, opacity, after)
    } else {
        after == Ok::<Grid<Rgb>, Failure>(placed(canvas, image, placement, opacity))
    }
}

/// Runs the placement stage: resizes the image to the canvas where it is to
/// be stretched, then places it.
pub fn compose(
    canvas: Canvas,
    image: Image,
    placement: &Placement,
    opacity: u8,
) -> (out: Result<Canvas, Failure>)
    ensures
        composed(canvas@, image@, *placement, opacity, outcome(out)),
{
    proof {
        use_type_invariant(&canvas);
        use_type_invariant(&image);
    }
    match placement {
        Placement::Stretch => {
            let width: u32 = canvas.width();
            let height: u32 = canvas.height();
            if width == 0 || height == 0 || image.width() == 0 || image.height() == 0 {
                return Ok(canvas);
            }
            let filter = choose_filter(image.width(), image.height(), width, height);
            match resample(image, width, height, filter) {
                Ok(cover) => {
                    proof {
                        use_type_invariant(&cover);
                    }
                    Ok(place(canvas, &cover, placement, opacity))
                },
                Err(failure) => Err(failure),
            }
        },
        _ => Ok(place(canvas, &image, placement, opacity)),
    }
}

/// Whether a channel is none or full.
pub open spec fn none_or_full(value: u8) -> bool {
    value == 0 || value == 255
}

/// An opaque image of one colour, each of whose channels is none or full,
/// covers the whole canvas with that colour when it is stretched at full
/// opacity.
pub proof fn lemma_stretched_flat(
    canvas: Grid<Rgb>,
    image: Grid<Rgba>,
    color: Rgba,
    after: Result<Grid<Rgb>, Failure>,
)
    requires
        canvas.wf(),
        canvas.width > 0,
        canvas.height > 0,
        image.width > 0,
        image.height > 0,
        in_reach(
            image.width as u32,
            image.height as u32,
            canvas.width as u32,
            canvas.height as u32,
        ),
        forall|i: int| 0 <= i < image.cells.len() ==> #[trigger] image.cells[i] == color,
        color.alpha == 255,
        none_or_full(color.red),
        none_or_full(color.green),
        none_or_full(color.blue),
        stretched(canvas, image, 255, after),
    ensures
        after is Ok,
        after->Ok_0.wf(),
        after->Ok_0.width == canvas.width,
        after->Ok_0.height == canvas.height,
        after->Ok_0.uniform(color.opaque()),
{
    let cover = choose|cover: Grid<Rgba>|
        cover.wf() && cover.width == canvas.width && cover.height == canvas.height
            && keeps_flat_cells(image.cells, cover.cells) && after == Ok::<Grid<Rgb>, Failure>(
            #[trigger] placed(canvas, cover, Placement::Stretch, 255),
        );
    assert(flat_cells(image.cells, 0, color.red));
    assert(flat_cells(image.cells, 1, color.green));
    assert(flat_cells(image.cells, 2, color.blue));
    assert(flat_cells(image.cells, 3, color.alpha));
    assert(flat_cells(cover.cells, 0, color.red));
    assert(flat_cells(cover.cells, 1, color.green));
    assert(flat_cells(cover.cells, 2, color.blue));
    assert(flat_cells(cover.cells, 3, color.alpha));
    let done = after->Ok_0;
    assert forall|x: int, y: int| done.contains(x, y) implies #[trigger] done.at(x, y)
        == color.opaque() by {
        lemma_cell_index(canvas.width as int, canvas.height as int, x, y);
        let cell = cover.cells[y * cover.width + x];
        assert(channel(cell, 0) == color.red && channel(cell, 1) == color.green && channel(
            cell,
            2,
        ) == color.blue && channel(cell, 3) == color.alpha);
        assert(cover.at(x, y) == color);
        lemma_full_opacity_replaces(canvas, cover, Placement::Stretch, x, y);
    }
    lemma_placed_at(canvas, cover, Placement::Stretch, 255, 0, 0);
}

} // verus!
