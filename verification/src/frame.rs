//! Images as raw bytes: four bytes per pixel, red, green, blue and alpha,
//! pixel after pixel in row-major order.

use crate::color::Rgba;
use crate::raster::{Grid, Image, Raster};
use vstd::prelude::*;

verus! {

/// An image as raw bytes, as image codecs and resamplers exchange it.
pub struct Frame {
    pub width: u32,
    pub height: u32,
    pub data: Vec<u8>,
}

/// Channel `i` of a pixel in byte order.
pub open spec fn channel(pixel: Rgba, i: int) -> u8 {
    if i == 0 {
        pixel.red
    } else if i == 1 {
        pixel.green
    } else if i == 2 {
        pixel.blue
    } else {
        pixel.alpha
    }
}

/// The bytes that hold the given pixels.
pub open spec fn bytes_of(cells: Seq<Rgba>) -> Seq<u8> {
    Seq::new(4 * cells.len(), |i: int| channel(cells[i / 4], i % 4))
}

/// The pixels that the given bytes hold; bytes after the last whole pixel
/// are left out.
pub open spec fn pixels_of(bytes: Seq<u8>) -> Seq<Rgba> {
    Seq::new(
        bytes.len() / 4,
        |i: int|
            Rgba {
                red: bytes[4 * i],
                green: bytes[4 * i + 1],
                blue: bytes[4 * i + 2],
                alpha: bytes[4 * i + 3],
            },
    )
}

/// Whether a frame holds exactly one pixel for every coordinate.
pub open spec fn complete(width: u32, height: u32, data: Seq<u8>) -> bool {
    data.len() == width * height * 4
}

/// Whether channel `c` has the value `v` at every pixel that the bytes
/// hold.
pub open spec fn flat_channel(data: Seq<u8>, c: int, v: u8) -> bool {
    forall|i: int| 0 <= i < data.len() / 4 ==> #[trigger] data[4 * i + c] == v
}

/// Whether every channel that is none at every pixel of `data`, or full at
/// every pixel, is the same at every pixel of `out`.
pub open spec fn keeps_flat_channels(data: Seq<u8>, out: Seq<u8>) -> bool {
    forall|c: int, v: u8|
        0 <= c < 4 && (v == 0 || v == 255) && #[trigger] flat_channel(data, c, v)
            ==> flat_channel(out, c, v)
}

/// Whether channel `c` has the value `v` in every cell.
pub open spec fn flat_cells(cells: Seq<Rgba>, c: int, v: u8) -> bool {
    forall|i: int| 0 <= i < cells.len() ==> channel(#[trigger] cells[i], c) == v
}

/// Whether every channel that is none in every cell of `before`, or full in
/// every cell, is the same in every cell of `after`.
pub open spec fn keeps_flat_cells(before: Seq<Rgba>, after: Seq<Rgba>) -> bool {
    forall|c: int, v: u8|
        0 <= c < 4 && (v == 0 || v == 255) && #[trigger] flat_cells(before, c, v)
            ==> flat_cells(after, c, v)
}

/// What keeps the flat channels of the bytes of some cells holds cells that
/// keep the flat channels of those cells.
pub proof fn lemma_keeps_flat(cells: Seq<Rgba>, out: Seq<u8>)
    requires
        keeps_flat_channels(bytes_of(cells), out),
    ensures
        keeps_flat_cells(cells, pixels_of(out)),
{
    let data = bytes_of(cells);
    assert forall|c: int, v: u8|
        0 <= c < 4 && (v == 0 || v == 255) && #[trigger] flat_cells(cells, c, v) implies flat_cells(
        pixels_of(out),
        c,
        v,
    ) by {
        assert forall|i: int| 0 <= i < data.len() / 4 implies #[trigger] data[4 * i + c] == v by {
            assert((4 * i + c) / 4 == i && (4 * i + c) % 4 == c);
            assert(channel(cells[i], c) == v);
        }
        assert(flat_channel(data, c, v));
        assert(flat_channel(out, c, v));
        assert forall|i: int| 0 <= i < pixels_of(out).len() implies channel(
            #[trigger] pixels_of(out)[i],
            c,
        ) == v by {
            assert(out[4 * i + c] == v);
        }
    }
}

/// The bytes of an image's pixels.
pub fn to_bytes(image: &Image) -> (out: Vec<u8>)
    ensures
        out@ == bytes_of(image@.cells),
{
    let pixels = image.pixels();
    let mut out: Vec<u8> = Vec::new();
    let mut i: usize = 0;
    while i < pixels.len()
        invariant
            pixels@ == image@.cells,
            i <= pixels@.len(),
            out@ == bytes_of(pixels@.take(i as int)),
        decreases pixels@.len() - i,
    {
        let pixel = pixels[i];
        out.push(pixel.red);
        out.push(pixel.green);
        out.push(pixel.blue);
        out.push(pixel.alpha);
        proof {
            assert(out@ =~= bytes_of(pixels@.take(i + 1)));
        }
        i = i + 1;
    }
    proof {
        assert(pixels@.take(i as int) =~= pixels@);
    }
    out
}

/// Makes an image of a frame, or `None` if the frame does not hold exactly
/// one pixel for every coordinate.
pub fn from_frame(frame: Frame) -> (out: Option<Image>)
    ensures
        out is Some <==> complete(frame.width, frame.height, frame.data@),
        out is Some ==> out->0@ == (Grid {
            width: frame.width as nat,
            height: frame.height as nat,
            cells: pixels_of(frame.data@),
        }),
{
    assert(frame.width * frame.height * 4 <= 0xffff_ffff * 0xffff_ffff * 4) by (nonlinear_arith)
        requires
            0 <= frame.width <= 0xffff_ffff,
            0 <= frame.height <= 0xffff_ffff,
    ;
    let expected: u128 = (frame.width as u128) * (frame.height as u128) * 4;
    if frame.data.len() as u128 != expected {
        return None;
    }
    let total: usize = frame.data.len();
    let count: usize = total / 4;
    let mut pixels: Vec<Rgba> = Vec::new();
    let mut i: usize = 0;
    while i < count
        invariant
            total == frame.data@.len(),
            count == total / 4,
            i <= count,
            pixels@ == pixels_of(frame.data@).take(i as int),
        decreases count - i,
    {
        pixels.push(
            Rgba {
                red: frame.data[4 * i],
                green: frame.data[4 * i + 1],
                blue: frame.data[4 * i + 2],
                alpha: frame.data[4 * i + 3],
            },
        );
        proof {
            assert(pixels@ =~= pixels_of(frame.data@).take(i + 1));
        }
        i = i + 1;
    }
    proof {
        assert(pixels_of(frame.data@).take(i as int) =~= pixels_of(frame.data@));
    }
    Some(Raster::assemble(frame.width, frame.height, pixels))
}

} // verus!
