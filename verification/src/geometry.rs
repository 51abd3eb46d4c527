//! Geometry primitives.

use crate::text::{
    chars_of, fields, integer, natural, parse_integer, parse_natural, split,
};
use vstd::prelude::*;

verus! {

/// One of the two axes of a raster.
#[derive(Clone, Copy, Debug, PartialEq, Eq, Structural)]
pub enum Orientation {
    /// Along a row, from the left edge to the right edge.
    Horizontal,
    /// Along a column, from the top edge to the bottom edge.
    Vertical,
}

/// A rectangle of `width` by `height` cells whose top-left cell is `(x, y)`.
#[derive(Clone, Copy, Debug, PartialEq, Eq, Structural)]
pub struct Area {
    pub x: u32,
    pub y: u32,
    pub width: u32,
    pub height: u32,
}

/// The offset that `text` writes, if it writes one: `X:Y` or `X`, each a
/// decimal number with or without a minus sign.  A `Y` that is left out is
/// zero.
pub open spec fn offset_text(text: Seq<char>) -> Option<(i64, i64)> {
    let parts = fields(text);
    if parts.len() == 1 {
        match integer(parts[0]) {
            Some(x) => Some((x as i64, 0i64)),
            None => None,
        }
    } else if parts.len() == 2 {
        match (integer(parts[0]), integer(parts[1])) {
            (Some(x), Some(y)) => Some((x as i64, y as i64)),
            _ => None,
        }
    } else {
        None
    }
}

/// The size that `text` writes, if it writes one: `W:H`, each a decimal
/// number that 32 bits hold.
pub open spec fn size_text(text: Seq<char>) -> Option<(u32, u32)> {
    let parts = fields(text);
    if parts.len() == 2 {
        match (natural(parts[0], u32::MAX as nat), natural(parts[1], u32::MAX as nat)) {
            (Some(width), Some(height)) => Some((width as u32, height as u32)),
            _ => None,
        }
    } else {
        None
    }
}

/// The area that `text` writes, if it writes one: `X:Y:W:H`, each a decimal
/// number that 32 bits hold.
pub open spec fn area_text(text: Seq<char>) -> Option<Area> {
    let parts = fields(text);
    if parts.len() == 4 {
        match (
            natural(parts[0], u32::MAX as nat),
            natural(parts[1], u32::MAX as nat),
            natural(parts[2], u32::MAX as nat),
            natural(parts[3], u32::MAX as nat),
        ) {
            (Some(x), Some(y), Some(width), Some(height)) => Some(
                Area { x: x as u32, y: y as u32, width: width as u32, height: height as u32 },
            ),
            _ => None,
        }
    } else {
        None
    }
}

fn side(text: &Vec<char>) -> (out: Option<u32>)
    ensures
        match natural(text@, u32::MAX as nat) {
            Some(value) => out == Some(value as u32),
            None => out is None,
        },
{
    match parse_natural(text, 0xffff_ffff) {
        Some(value) => Some(value as u32),
        None => None,
    }
}

/// Reads an offset from `X:Y` or `X`.
pub fn parse_offset(arg: &str) -> (out: Option<(i64, i64)>)
    ensures
        out == offset_text(arg@),
{
    let text = chars_of(arg);
    let parts = split(&text);
    if parts.len() == 1 {
        match parse_integer(&parts[0]) {
            Some(x) => Some((x, 0)),
            None => None,
        }
    } else if parts.len() == 2 {
        match (parse_integer(&parts[0]), parse_integer(&parts[1])) {
            (Some(x), Some(y)) => Some((x, y)),
            _ => None,
        }
    } else {
        None
    }
}

/// Reads a size from `W:H`.
pub fn parse_size(arg: &str) -> (out: Option<(u32, u32)>)
    ensures
        out == size_text(arg@),
{
    let text = chars_of(arg);
    let parts = split(&text);
    if parts.len() == 2 {
        match (side(&parts[0]), side(&parts[1])) {
            (Some(width), Some(height)) => Some((width, height)),
            _ => None,
        }
    } else {
        None
    }
}

/// Reads an area from `X:Y:W:H`.
pub fn parse_area(arg: &str) -> (out: Option<Area>)
    ensures
        out == area_text(arg@),
{
    let text = chars_of(arg);
    let parts = split(&text);
    if parts.len() == 4 {
        match (side(&parts[0]), side(&parts[1]), side(&parts[2]), side(&parts[3])) {
            (Some(x), Some(y), Some(width), Some(height)) => Some(Area { x, y, width, height }),
            _ => None,
        }
    } else {
        None
    }
}

/// Checks that an argument writes an offset.
pub fn is_offset(arg: &str) -> (out: Result<(), String>)
    ensures
        out is Ok <==> offset_text(arg@) is Some,
        out matches Err(message) ==> message@ == "offsets must be in the X:Y syntax"@,
{
    match parse_offset(arg) {
        Some(_) => Ok(()),
        None => Err("offsets must be in the X:Y syntax".to_owned()),
    }
}

/// The offset that an argument writes.
pub fn to_offset(arg: &str) -> (out: (i64, i64))
    requires
        offset_text(arg@) is Some,
    ensures
        Some(out) == offset_text(arg@),
{
    match parse_offset(arg) {
        Some(offset) => offset,
        None => unreached(),
    }
}

/// Checks that an argument writes a size.
pub fn is_size(arg: &str) -> (out: Result<(), String>)
    ensures
        out is Ok <==> size_text(arg@) is Some,
        out matches Err(message) ==> message@ == "sizes must be in the W:H syntax"@,
{
    match parse_size(arg) {
        Some(_) => Ok(()),
        None => Err("sizes must be in the W:H syntax".to_owned()),
    }
}

/// The size that an argument writes.
pub fn to_size(arg: &str) -> (out: (u32, u32))
    requires
        size_text(arg@) is Some,
    ensures
        Some(out) == size_text(arg@),
{
    match parse_size(arg) {
        Some(size) => size,
        None => unreached(),
    }
}

/// Checks that an argument writes an area.
pub fn is_area(arg: &str) -> (out: Result<(), String>)
    ensures
        out is Ok <==> area_text(arg@) is Some,
        out matches Err(message) ==> message@ == "areas must be in the X:Y:W:H syntax"@,
{
    match parse_area(arg) {
        Some(_) => Ok(()),
        None => Err("areas must be in the X:Y:W:H syntax".to_owned()),
    }
}

/// The area that an argument writes.
pub fn to_area(arg: &str) -> (out: Area)
    requires
        area_text(arg@) is Some,
    ensures
        Some(out) == area_text(arg@),
{
    match parse_area(arg) {
        Some(area) => area,
        None => unreached(),
    }
}

} // verus!
