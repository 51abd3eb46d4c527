//! The ways in which setting a background fails.

use crate::install::{describe, step_text, Step};
use vstd::prelude::*;

verus! {

/// Why no background was set.
#[derive(Clone, Copy, Debug, PartialEq, Eq, Structural)]
pub enum Failure {
    /// The image source is not an image that can be decoded.
    Decode,
    /// A geometry argument is malformed, or names a region or a size that
    /// the raster it applies to cannot have.
    Geometry,
    /// A colour argument is not `#RGB` or `#RRGGBB`.
    Color,
    /// The options ask for no background, or for steps that exclude each
    /// other.
    Options,
    /// The display server did not carry out the request of this step.
    Protocol(Step),
    /// The display server cannot be reached.
    Connection,
}

/// The message that tells of a failure.
pub open spec fn message_text(failure: Failure) -> Seq<char> {
    match failure {
        Failure::Decode => "failed to open image"@,
        Failure::Geometry => "invalid geometry"@,
        Failure::Color => "invalid color"@,
        Failure::Options => "options exclude each other or ask for no background"@,
        Failure::Protocol(step) => step_text(step),
        Failure::Connection => "could not connect to the display"@,
    }
}

impl Failure {
    /// The message that tells of this failure.
    pub fn message(&self) -> (out: String)
        ensures
            out@ == message_text(*self),
    {
        match self {
            Failure::Decode => "failed to open image".to_owned(),
            Failure::Geometry => "invalid geometry".to_owned(),
            Failure::Color => "invalid color".to_owned(),
            Failure::Options => "options exclude each other or ask for no background".to_owned(),
            Failure::Protocol(step) => describe(*step).to_owned(),
            Failure::Connection => "could not connect to the display".to_owned(),
        }
    }
}

} // verus!
