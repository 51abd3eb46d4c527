//! From what an image decoder returned to an image.
//!
//! Decoding itself is left to the caller.  The decoders of encoded formats
//! give up on some malformed files by panicking, deep inside their entropy
//! decoding, and which files those are cannot be told from the bytes without
//! decoding them; nothing in this library panics.  The caller decodes, and
//! hands over what came back.

use crate::color::Rgba;
use crate::failure::Failure;
use crate::frame::{complete, from_frame, pixels_of, Frame};
use crate::raster::{outcome, Grid, Image};
use vstd::prelude::*;

verus! {

/// The image that a decoding stands for: decoding must have succeeded, with
/// exactly one pixel for every coordinate.  Anything else is no image.
pub open spec fn decoded_image(decoding: Option<(u32, u32, Seq<u8>)>) -> Result<
    Grid<Rgba>,
    Failure,
> {
    match decoding {
        Some((width, height, data)) => if complete(width, height, data) {
            Ok(Grid { width: width as nat, height: height as nat, cells: pixels_of(data) })
        } else {
            Err(Failure::Decode)
        },
        None => Err(Failure::Decode),
    }
}

/// What a decoder returned, without its error: the width, the height and
/// the bytes of the picture.
pub open spec fn decoding_of<E>(returned: Result<Frame, E>) -> Option<(u32, u32, Seq<u8>)> {
    match returned {
        Ok(frame) => Some((frame.width, frame.height, frame.data@)),
        Err(_) => None,
    }
}

/// Makes an image of what a decoder returned, or reports that there is none.
pub fn image_of<E>(returned: Result<Frame, E>) -> (out: Result<Image, Failure>)
    ensures
        outcome(out) == decoded_image(decoding_of(returned)),
{
    match returned {
        Ok(frame) => match from_frame(frame) {
            Some(image) => Ok(image),
            None => Err(Failure::Decode),
        },
        Err(_) => Err(Failure::Decode),
    }
}

} // verus!
