//! From the options as they are given to a background description.

use crate::color::{color_text, parse_color, Rgb};
use crate::compose::Placement;
use crate::failure::Failure;
use crate::geometry::{
    area_text, offset_text, parse_area, parse_offset, parse_size, size_text, Area, Orientation,
};
use crate::pipeline::{Backdrop, Background, Config, Plan};
use crate::scaling::Resize;
use crate::source::Gradient;
use crate::text::chars_of;
use vstd::prelude::*;

verus! {

/// A factor as a fraction.
#[derive(Clone, Copy, Debug, PartialEq, Eq, Structural)]
pub struct Ratio {
    pub numerator: u32,
    pub denominator: u32,
}

/// The options as they are given: texts where the option takes a text,
/// `None` or empty where it was left out.
pub struct Options {
    /// `#RGB` or `#RRGGBB`: a flat colour.
    pub solid: Option<String>,
    /// One colour for each stop of a gradient.
    pub gradient: Vec<String>,
    /// The gradient runs from left to right.
    pub horizontal: bool,
    /// The gradient runs from top to bottom.
    pub vertical: bool,
    /// An image is given.
    pub image: bool,
    /// The image is centred.
    pub center: bool,
    /// `X:Y`: the image is put there.
    pub position: Option<String>,
    /// `X:Y`: the image is tiled, shifted by that much.
    pub tile: Option<String>,
    /// The image is fitted to the screen.
    pub fit: bool,
    /// `W:H`: the image is resized to that size.
    pub resize: Option<String>,
    /// The image is scaled by this factor.
    pub scale: Option<Ratio>,
    /// `X:Y:W:H`: the image is cropped to that area first.
    pub crop: Option<String>,
    /// How opaque the image is, from 0 for invisible to 255 for opaque.
    pub opacity: Option<u8>,
    /// The axes along which the canvas is flipped at the end, in order.
    pub flip: Vec<String>,
}

/// A letter in lower case; any other character as it is.
pub open spec fn lowered(c: char) -> char {
    if 'A' <= c <= 'Z' {
        ((c as u8 + 32) as u8) as char
    } else {
        c
    }
}

/// The axis that a word names, in either case: `vertically`, `vertical`,
/// `vert` or `v`, or `horizontally`, `horizontal`, `horiz` or `h`.
pub open spec fn flip_word(word: Seq<char>) -> Option<Orientation> {
    let low = word.map_values(|c: char| lowered(c));
    if low == "vertically"@ || low == "vertical"@ || low == "vert"@ || low == "v"@ {
        Some(Orientation::Vertical)
    } else if low == "horizontally"@ || low == "horizontal"@ || low == "horiz"@ || low == "h"@ {
        Some(Orientation::Horizontal)
    } else {
        None
    }
}

/// The axes that the words name, in their order; a word that names none is
/// passed over.
pub open spec fn flips_of(words: Seq<String>) -> Seq<Orientation>
    decreases words.len(),
{
    if words.len() == 0 {
        Seq::empty()
    } else {
        match flip_word(words.last()@) {
            Some(axis) => flips_of(words.drop_last()).push(axis),
            None => flips_of(words.drop_last()),
        }
    }
}

/// The colours that the words write, in their order, if each writes one.
pub open spec fn stops_of(words: Seq<String>) -> Option<Seq<Rgb>>
    decreases words.len(),
{
    if words.len() == 0 {
        Some(Seq::empty())
    } else {
        match (stops_of(words.drop_last()), color_text(words.last()@)) {
            (Some(stops), Some(color)) => Some(stops.push(color.opaque())),
            _ => None,
        }
    }
}

/// How many of three options are given.
pub open spec fn given(a: bool, b: bool, c: bool) -> nat {
    (if a {
        1nat
    } else {
        0nat
    }) + (if b {
        1nat
    } else {
        0nat
    }) + (if c {
        1nat
    } else {
        0nat
    })
}

/// Whether the options ask for no background at all, for an axis without a
/// gradient, for something to be done to an image that is not given, or for
/// two steps of which only one can be taken: two placements, or two ways
/// to resize.
pub open spec fn conflicting(options: Options) -> bool {
    ||| options.solid is None && options.gradient@.len() == 0 && !options.image
    ||| (options.horizontal || options.vertical) && options.gradient@.len() == 0
    ||| !options.image && (options.center || options.position is Some || options.tile is Some
        || options.fit || options.resize is Some || options.scale is Some || options.crop is Some
        || options.opacity is Some)
    ||| given(options.center, options.position is Some, options.tile is Some) > 1
    ||| given(options.fit, options.resize is Some, options.scale is Some) > 1
}

/// The backdrop that the options ask for: a gradient where stops are given,
/// else the flat colour where one is given, else black.
pub open spec fn backdrop_of(options: Options) -> Result<Backdrop, Failure> {
    if options.gradient@.len() > 0 {
        match stops_of(options.gradient@) {
            Some(stops) => Ok(
                Backdrop::Gradient {
                    stops,
                    orientation: if options.vertical {
                        Orientation::Vertical
                    } else {
                        Orientation::Horizontal
                    },
                },
            ),
            None => Err(Failure::Color),
        }
    } else {
        match options.solid {
            Some(word) => match color_text(word@) {
                Some(color) => Ok(Backdrop::Solid(color.opaque())),
                None => Err(Failure::Color),
            },
            None => Ok(Backdrop::Blank),
        }
    }
}

/// The crop that the options ask for.
pub open spec fn crop_of(options: Options) -> Result<Option<Area>, Failure> {
    match options.crop {
        Some(word) => match area_text(word@) {
            Some(area) => Ok(Some(area)),
            None => Err(Failure::Geometry),
        },
        None => Ok(None),
    }
}

/// The resize stage that the options ask for.
pub open spec fn resize_of(options: Options) -> Result<Resize, Failure> {
    if options.fit {
        Ok(Resize::Fit)
    } else if options.resize is Some {
        match size_text(options.resize->0@) {
            Some((width, height)) => Ok(Resize::Exact { width, height }),
            None => Err(Failure::Geometry),
        }
    } else {
        match options.scale {
            Some(ratio) => if ratio.denominator == 0 {
                Err(Failure::Geometry)
            } else {
                Ok(
                    Resize::Scale {
                        numerator: ratio.numerator,
                        denominator: ratio.denominator,
                    },
                )
            },
            None => Ok(Resize::Keep),
        }
    }
}

/// The placement that the options ask for; stretching where none is
/// given.
pub open spec fn placement_of(options: Options) -> Result<Placement, Failure> {
    if options.center {
        Ok(Placement::Center)
    } else if options.position is Some {
        match offset_text(options.position->0@) {
            Some((x, y)) => Ok(Placement::Position { x, y }),
            None => Err(Failure::Geometry),
        }
    } else if options.tile is Some {
        match offset_text(options.tile->0@) {
            Some((x, y)) => Ok(Placement::Tile { x, y }),
            None => Err(Failure::Geometry),
        }
    } else {
        Ok(Placement::Stretch)
    }
}

/// The background description that the options stand for, or why they
/// stand for none.  Options that exclude each other are refused before any
/// text is read; a colour that cannot be read is reported before a geometry
/// that cannot.
pub open spec fn configured(options: Options) -> Result<Plan, Failure> {
    if conflicting(options) {
        Err(Failure::Options)
    } else if backdrop_of(options) is Err {
        Err(Failure::Color)
    } else if crop_of(options) is Err || resize_of(options) is Err || placement_of(options)
        is Err {
        Err(Failure::Geometry)
    } else {
        Ok(
            Plan {
                backdrop: backdrop_of(options)->Ok_0,
                crop: crop_of(options)->Ok_0,
                resize: resize_of(options)->Ok_0,
                placement: placement_of(options)->Ok_0,
                opacity: match options.opacity {
                    Some(level) => level,
                    None => 255u8,
                },
                flips: flips_of(options.flip@),
            },
        )
    }
}

fn lower(c: char) -> (out: char)
    ensures
        out == lowered(c),
{
    if c >= 'A' && c <= 'Z' {
        (c as u8 + 32) as char
    } else {
        c
    }
}

fn same_text(chars: &Vec<char>, word: &str) -> (out: bool)
    ensures
        out == (chars@ == word@),
{
    let other = chars_of(word);
    if chars.len() != other.len() {
        return false;
    }
    let mut i: usize = 0;
    while i < chars.len()
        invariant
            other@ == word@,
            chars@.len() == other@.len(),
            i <= chars@.len(),
            forall|k: int| 0 <= k < i ==> chars@[k] == other@[k],
        decreases chars@.len() - i,
    {
        if chars[i] != other[i] {
            assert(chars@[i as int] != word@[i as int]);
            return false;
        }
        i = i + 1;
    }
    proof {
        assert(chars@ =~= other@);
    }
    true
}

/// Reads the axis that a word names.
pub fn parse_flip(word: &str) -> (out: Option<Orientation>)
    ensures
        out == flip_word(word@),
{
    let text = chars_of(word);
    let mut low: Vec<char> = Vec::new();
    let mut i: usize = 0;
    while i < text.len()
        invariant
            text@ == word@,
            i <= text@.len(),
            low@ == text@.take(i as int).map_values(|c: char| lowered(c)),
        decreases text@.len() - i,
    {
        low.push(lower(text[i]));
        proof {
            assert(low@ =~= text@.take(i + 1).map_values(|c: char| lowered(c)));
        }
        i = i + 1;
    }
    proof {
        assert(text@.take(i as int) =~= text@);
    }
    if same_text(&low, "vertically") || same_text(&low, "vertical") || same_text(&low, "vert")
        || same_text(&low, "v") {
        Some(Orientation::Vertical)
    } else if same_text(&low, "horizontally") || same_text(&low, "horizontal") || same_text(
        &low,
        "horiz",
    ) || same_text(&low, "h") {
        Some(Orientation::Horizontal)
    } else {
        None
    }
}

fn read_flips(words: &Vec<String>) -> (out: Vec<Orientation>)
    ensures
        out@ == flips_of(words@),
{
    let mut out: Vec<Orientation> = Vec::new();
    let mut i: usize = 0;
    while i < words.len()
        invariant
            i <= words@.len(),
            out@ == flips_of(words@.take(i as int)),
        decreases words@.len() - i,
    {
        proof {
            assert(words@.take(i + 1).drop_last() =~= words@.take(i as int));
        }
        match parse_flip(words[i].as_str()) {
            Some(axis) => {
                out.push(axis);
            },
            None => {},
        }
        i = i + 1;
    }
    proof {
        assert(words@.take(i as int) =~= words@);
    }
    out
}

fn read_stops(words: &Vec<String>) -> (out: Option<Vec<Rgb>>)
    ensures
        match stops_of(words@) {
            Some(stops) => out is Some && out->0@ == stops,
            None => out is None,
        },
{
    let mut out: Vec<Rgb> = Vec::new();
    let mut i: usize = 0;
    while i < words.len()
        invariant
            i <= words@.len(),
            stops_of(words@.take(i as int)) == Some(out@),
        decreases words@.len() - i,
    {
        proof {
            assert(words@.take(i + 1).drop_last() =~= words@.take(i as int));
        }
        match parse_color(words[i].as_str()) {
            Some(color) => {
                out.push(Rgb { red: color.red, green: color.green, blue: color.blue });
            },
            None => {
                proof {
                    lemma_stops_fail(words@, i as int + 1);
                }
                return None;
            },
        }
        i = i + 1;
    }
    proof {
        assert(words@.take(i as int) =~= words@);
    }
    Some(out)
}

/// Once a word writes no colour, no longer list of words gives stops.
proof fn lemma_stops_fail(words: Seq<String>, i: int)
    requires
        0 <= i <= words.len(),
        stops_of(words.take(i)) is None,
    ensures
        stops_of(words) is None,
    decreases words.len() - i,
{
    if i == words.len() {
        assert(words.take(i) =~= words);
    } else {
        assert(words.take(i + 1).drop_last() =~= words.take(i));
        lemma_stops_fail(words, i + 1);
    }
}

fn count(a: bool, b: bool, c: bool) -> (out: u8)
    ensures
        out == given(a, b, c),
{
    let x: u8 = if a {
        1
    } else {
        0
    };
    let y: u8 = if b {
        1
    } else {
        0
    };
    let z: u8 = if c {
        1
    } else {
        0
    };
    x + y + z
}

fn conflicts(options: &Options) -> (out: bool)
    ensures
        out == conflicting(*options),
{
    let no_stops = options.gradient.len() == 0;
    if options.solid.is_none() && no_stops && !options.image {
        return true;
    }
    if (options.horizontal || options.vertical) && no_stops {
        return true;
    }
    if !options.image && (options.center || options.position.is_some() || options.tile.is_some()
        || options.fit || options.resize.is_some() || options.scale.is_some()
        || options.crop.is_some() || options.opacity.is_some()) {
        return true;
    }
    if count(options.center, options.position.is_some(), options.tile.is_some()) > 1 {
        return true;
    }
    count(options.fit, options.resize.is_some(), options.scale.is_some()) > 1
}

fn read_background(options: &Options) -> (out: Result<Background, Failure>)
    ensures
        match backdrop_of(*options) {
            Ok(backdrop) => out is Ok && out->Ok_0@ == backdrop,
            Err(failure) => out is Err && out->Err_0 == failure,
        },
{
    if options.gradient.len() > 0 {
        match read_stops(&options.gradient) {
            Some(stops) => match Gradient::new(stops) {
                Some(gradient) => Ok(
                    Background::Gradient {
                        gradient,
                        orientation: if options.vertical {
                            Orientation::Vertical
                        } else {
                            Orientation::Horizontal
                        },
                    },
                ),
                None => Err(Failure::Color),
            },
            None => Err(Failure::Color),
        }
    } else {
        match &options.solid {
            Some(word) => match parse_color(word.as_str()) {
                Some(color) => Ok(
                    Background::Solid(
                        Rgb { red: color.red, green: color.green, blue: color.blue },
                    ),
                ),
                None => Err(Failure::Color),
            },
            None => Ok(Background::Blank),
        }
    }
}

fn read_crop(options: &Options) -> (out: Result<Option<Area>, Failure>)
    ensures
        out == crop_of(*options),
{
    match &options.crop {
        Some(word) => match parse_area(word.as_str()) {
            Some(area) => Ok(Some(area)),
            None => Err(Failure::Geometry),
        },
        None => Ok(None),
    }
}

fn read_resize(options: &Options) -> (out: Result<Resize, Failure>)
    ensures
        out == resize_of(*options),
{
    if options.fit {
        return Ok(Resize::Fit);
    }
    if let Some(word) = &options.resize {
        return match parse_size(word.as_str()) {
            Some((width, height)) => Ok(Resize::Exact { width, height }),
            None => Err(Failure::Geometry),
        };
    }
    match options.scale {
        Some(ratio) => if ratio.denominator == 0 {
            Err(Failure::Geometry)
        } else {
            Ok(Resize::Scale { numerator: ratio.numerator, denominator: ratio.denominator })
        },
        None => Ok(Resize::Keep),
    }
}

fn read_placement(options: &Options) -> (out: Result<Placement, Failure>)
    ensures
        out == placement_of(*options),
{
    if options.center {
        return Ok(Placement::Center);
    }
    if let Some(word) = &options.position {
        return match parse_offset(word.as_str()) {
            Some((x, y)) => Ok(Placement::Position { x, y }),
            None => Err(Failure::Geometry),
        };
    }
    match &options.tile {
        Some(word) => match parse_offset(word.as_str()) {
            Some((x, y)) => Ok(Placement::Tile { x, y }),
            None => Err(Failure::Geometry),
        },
        None => Ok(Placement::Stretch),
    }
}

/// Makes a background description of the options, or says why there is
/// none.
pub fn configure(options: &Options) -> (out: Result<Config, Failure>)
    ensures
        match configured(*options) {
            Ok(plan) => out is Ok && out->Ok_0@ == plan,
            Err(failure) => out is Err && out->Err_0 == failure,
        },
{
    if conflicts(options) {
        return Err(Failure::Options);
    }
    let background = match read_background(options) {
        Ok(background) => background,
        Err(_) => {
            return Err(Failure::Color);
        },
    };
    let crop = read_crop(options);
    let resize = read_resize(options);
    let placement = read_placement(options);
    match (crop, resize, placement) {
        (Ok(crop), Ok(resize), Ok(placement)) => Ok(
            Config {
                background,
                crop,
                resize,
                placement,
                opacity: match options.opacity {
                    Some(level) => level,
                    None => 255,
                },
                flips: read_flips(&options.flip),
            },
        ),
        _ => Err(Failure::Geometry),
    }
}

} // verus!
