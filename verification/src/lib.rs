//! Compositing and installation of X11 root-window backgrounds.
//!
//! The library resolves a background description (a flat colour, a gradient
//! or a decoded image together with crop, resize, placement, opacity and flip
//! options) into an opaque raster of exactly the screen's size, and decides
//! the sequence of requests that installs such a raster as the root window's
//! background.  Everything here works on plain values; talking to the
//! display server is left to the caller.
//!
//! Colours have 8-bit channels throughout.  Rasters are modelled as grids of
//! cells in row-major order, and what a function gives is stated over those
//! grids.

pub mod text;
pub mod color;
pub mod geometry;
pub mod failure;
pub mod raster;
pub mod frame;
pub mod source;
pub mod decode;
pub mod transform;
pub mod scaling;
pub mod compose;
pub mod pipeline;
pub mod options;
pub mod install;
pub mod server;
pub mod select;
pub mod dispatch;
