//! Colours with 8-bit channels and source-over blending.

use crate::text::chars_of;
use vstd::prelude::*;

verus! {

/// An opaque colour.
#[derive(Clone, Copy, Debug, PartialEq, Eq, Structural)]
pub struct Rgb {
    pub red: u8,
    pub green: u8,
    pub blue: u8,
}

/// A colour with an alpha channel; `alpha == 255` is fully opaque.
#[derive(Clone, Copy, Debug, PartialEq, Eq, Structural)]
pub struct Rgba {
    pub red: u8,
    pub green: u8,
    pub blue: u8,
    pub alpha: u8,
}

/// The alpha that is left of `alpha` under an overlay opacity: it is reduced
/// by the opacity's distance from full, and never drops below zero.
pub open spec fn faded_alpha(alpha: u8, opacity: u8) -> u8 {
    if alpha + opacity >= 255 {
        (alpha + opacity - 255) as u8
    } else {
        0
    }
}

/// `value` with its alpha reduced for the overlay opacity.
pub open spec fn faded(value: Rgba, opacity: u8) -> Rgba {
    Rgba { alpha: faded_alpha(value.alpha, opacity), ..value }
}

/// One channel of `source` over `below` at the given alpha, rounded to the
/// nearest 8-bit value.
pub open spec fn mixed(source: u8, below: u8, alpha: u8) -> u8 {
    ((source * alpha + below * (255 - alpha) + 127) / 255) as u8
}

/// `source` composited over the opaque colour `below`.
pub open spec fn blended(source: Rgba, below: Rgb) -> Rgb {
    Rgb {
        red: mixed(source.red, below.red, source.alpha),
        green: mixed(source.green, below.green, source.alpha),
        blue: mixed(source.blue, below.blue, source.alpha),
    }
}

/// A mixed channel never leaves the 8-bit range, so the cast in `mixed`
/// loses nothing.
pub proof fn lemma_mixed_in_range(source: u8, below: u8, alpha: u8)
    ensures
        0 <= (source * alpha + below * (255 - alpha) + 127) / 255 <= 255,
        mixed(source, below, alpha) == (source * alpha + below * (255 - alpha) + 127) / 255,
{
    assert(0 <= source * alpha <= 255 * alpha) by (nonlinear_arith)
        requires
            0 <= source <= 255,
            0 <= alpha,
    ;
    assert(0 <= below * (255 - alpha) <= 255 * (255 - alpha)) by (nonlinear_arith)
        requires
            0 <= below <= 255,
            0 <= 255 - alpha,
    ;
}

/// Reduces the alpha of `value` for an overlay of the given opacity.
pub fn with_opacity(value: &Rgba, opacity: u8) -> (out: Rgba)
    ensures
        out == faded(*value, opacity),
{
    let gap: u8 = 255 - opacity;
    let alpha: u8 = if value.alpha >= gap {
        value.alpha - gap
    } else {
        0
    };
    Rgba { red: value.red, green: value.green, blue: value.blue, alpha }
}

fn mix(source: u8, below: u8, alpha: u8) -> (out: u8)
    ensures
        out == mixed(source, below, alpha),
{
    proof {
        lemma_mixed_in_range(source, below, alpha);
    }
    let s: u32 = source as u32;
    let b: u32 = below as u32;
    let a: u32 = alpha as u32;
    assert(s * a <= 255 * 255) by (nonlinear_arith)
        requires
            0 <= s <= 255,
            0 <= a <= 255,
    ;
    assert(b * (255 - a) <= 255 * 255) by (nonlinear_arith)
        requires
            0 <= b <= 255,
            0 <= 255 - a <= 255,
    ;
    let total: u32 = s * a + b * (255 - a) + 127;
    (total / 255) as u8
}

impl Rgba {
    /// This colour without its alpha channel.
    pub open spec fn opaque(self) -> Rgb {
        Rgb { red: self.red, green: self.green, blue: self.blue }
    }

    /// Composites this colour over the opaque colour `below`.
    pub fn over(&self, below: Rgb) -> (out: Rgb)
        ensures
            out == blended(*self, below),
    {
        Rgb {
            red: mix(self.red, below.red, self.alpha),
            green: mix(self.green, below.green, self.alpha),
            blue: mix(self.blue, below.blue, self.alpha),
        }
    }
}

/// A fully transparent source leaves what is below it unchanged.
pub proof fn lemma_transparent_keeps(source: Rgba, below: Rgb)
    requires
        source.alpha == 0,
    ensures
        blended(source, below) == below,
{
}

/// A fully opaque source replaces what is below it.
pub proof fn lemma_opaque_replaces(source: Rgba, below: Rgb)
    requires
        source.alpha == 255,
    ensures
        blended(source, below) == source.opaque(),
{
}

/// The value of a hexadecimal digit, in either case.
pub open spec fn hex_value(c: char) -> Option<u8> {
    if '0' <= c <= '9' {
        Some((c as u32 - '0' as u32) as u8)
    } else if 'a' <= c <= 'f' {
        Some((c as u32 - 'a' as u32 + 10) as u8)
    } else if 'A' <= c <= 'F' {
        Some((c as u32 - 'A' as u32 + 10) as u8)
    } else {
        None
    }
}

/// The channel that one hexadecimal digit writes: the digit doubled, so
/// that `f` is full and `0` is none.
pub open spec fn short_channel(digit: char) -> Option<u8> {
    match hex_value(digit) {
        Some(value) => Some((value * 17) as u8),
        None => None,
    }
}

/// The channel that two hexadecimal digits write.
pub open spec fn long_channel(high: char, low: char) -> Option<u8> {
    match (hex_value(high), hex_value(low)) {
        (Some(h), Some(l)) => Some((h * 16 + l) as u8),
        _ => None,
    }
}

/// The colour that `text` writes, if it writes one: `#RGB` or `#RRGGBB` in
/// hexadecimal digits of either case.  The colour is opaque.
pub open spec fn color_text(text: Seq<char>) -> Option<Rgba> {
    if text.len() == 4 && text[0] == '#' {
        match (short_channel(text[1]), short_channel(text[2]), short_channel(text[3])) {
            (Some(red), Some(green), Some(blue)) => Some(Rgba { red, green, blue, alpha: 255 }),
            _ => None,
        }
    } else if text.len() == 7 && text[0] == '#' {
        match (
            long_channel(text[1], text[2]),
            long_channel(text[3], text[4]),
            long_channel(text[5], text[6]),
        ) {
            (Some(red), Some(green), Some(blue)) => Some(Rgba { red, green, blue, alpha: 255 }),
            _ => None,
        }
    } else {
        None
    }
}

fn hex(c: char) -> (out: Option<u8>)
    ensures
        out == hex_value(c),
        out matches Some(value) ==> value < 16,
{
    if c >= '0' && c <= '9' {
        Some((c as u32 - '0' as u32) as u8)
    } else if c >= 'a' && c <= 'f' {
        Some((c as u32 - 'a' as u32 + 10) as u8)
    } else if c >= 'A' && c <= 'F' {
        Some((c as u32 - 'A' as u32 + 10) as u8)
    } else {
        None
    }
}

fn short(digit: char) -> (out: Option<u8>)
    ensures
        out == short_channel(digit),
{
    match hex(digit) {
        Some(value) => Some(value * 17),
        None => None,
    }
}

fn long(high: char, low: char) -> (out: Option<u8>)
    ensures
        out == long_channel(high, low),
{
    match (hex(high), hex(low)) {
        (Some(h), Some(l)) => Some(h * 16 + l),
        _ => None,
    }
}

/// Reads a colour from `#RGB` or `#RRGGBB`.
pub fn parse_color(arg: &str) -> (out: Option<Rgba>)
    ensures
        out == color_text(arg@),
{
    let text = chars_of(arg);
    if text.len() == 4 && text[0] == '#' {
        match (short(text[1]), short(text[2]), short(text[3])) {
            (Some(red), Some(green), Some(blue)) => Some(Rgba { red, green, blue, alpha: 255 }),
            _ => None,
        }
    } else if text.len() == 7 && text[0] == '#' {
        match (long(text[1], text[2]), long(text[3], text[4]), long(text[5], text[6])) {
            (Some(red), Some(green), Some(blue)) => Some(Rgba { red, green, blue, alpha: 255 }),
            _ => None,
        }
    } else {
        None
    }
}

/// Checks that an argument writes a colour.
pub fn is_color(arg: &str) -> (out: Result<(), String>)
    ensures
        out is Ok <==> color_text(arg@) is Some,
        out matches Err(message) ==> message@ == "invalid color"@,
{
    match parse_color(arg) {
        Some(_) => Ok(()),
        None => Err("invalid color".to_owned()),
    }
}

/// The colour that an argument writes.
pub fn to_color(arg: &str) -> (out: Rgba)
    requires
        color_text(arg@) is Some,
    ensures
        Some(out) == color_text(arg@),
{
    match parse_color(arg) {
        Some(color) => color,
        None => unreached(),
    }
}

/// `#fff` and `#ffffff` write the same colour: opaque white.
pub proof fn lemma_white_either_way()
    ensures
        color_text(seq!['#', 'f', 'f', 'f']) == Some(
            Rgba { red: 255, green: 255, blue: 255, alpha: 255 },
        ),
        color_text(seq!['#', 'f', 'f', 'f', 'f', 'f', 'f']) == color_text(
            seq!['#', 'f', 'f', 'f'],
        ),
{
}

/// The short form writes what the long form writes with every digit
/// doubled.
pub proof fn lemma_short_doubles(r: char, g: char, b: char)
    ensures
        color_text(seq!['#', r, g, b]) == color_text(seq!['#', r, r, g, g, b, b]),
{
    assert forall|c: char| short_channel(c) == long_channel(c, c) by {
        if let Some(value) = hex_value(c) {
            assert(value * 17 == value * 16 + value);
        }
    }
}

/// A text of any other length than four or seven characters writes no
/// colour, nor does one that starts with anything but `#` or holds anything
/// but hexadecimal digits after it.
pub proof fn lemma_color_rejects(text: Seq<char>)
    ensures
        text.len() != 4 && text.len() != 7 ==> color_text(text) is None,
        text.len() > 0 && text[0] != '#' ==> color_text(text) is None,
        (exists|i: int| 1 <= i < text.len() && hex_value(text[i]) is None) ==> color_text(text)
            is None,
{
}

} // verus!
