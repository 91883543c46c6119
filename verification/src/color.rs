//! An RGBA color value. Channels are exact rationals over the fixed
//! denominator 255: a channel is stored as its integer numerator, so the
//! channel value `n` stands for `n / 255`. Construction from a 0–255 integer
//! triple therefore performs the normalization `input / 255` exactly, and
//! full alpha (`1.0`) is the numerator 255. Rendering layers divide by 255
//! when they hand the color to a platform.

use vstd::prelude::*;

use crate::error::StyleError;
use crate::json::{jview, node_field, Json, JsonV};

verus! {

/// The fixed channel denominator: a stored numerator `n` means `n / 255`.
pub const CHANNEL_DENOMINATOR: i64 = 255;

/// The mathematical model of a color: the four channel numerators.
#[derive(PartialEq, Eq, Structural)]
pub struct ColorModel {
    pub r: int,
    pub g: int,
    pub b: int,
    pub a: int,
}

/// The color a channel triple normalizes to: each channel keeps its
/// numerator and alpha is fixed at full opacity (255 / 255 = 1.0).
pub open spec fn from_channels(r: int, g: int, b: int) -> ColorModel {
    ColorModel { r, g, b, a: 255 }
}

/// An RGBA color. Each field is a channel numerator over
/// [`CHANNEL_DENOMINATOR`]; fields are public, as callers may build colors
/// directly, and nothing forces a numerator into [0, 255].
#[derive(Clone, Copy, Debug, PartialEq, Eq, Structural)]
pub struct Color {
    pub r: i64,
    pub g: i64,
    pub b: i64,
    pub a: i64,
}

impl Color {
    /// The channel-numerator model of this color.
    pub open spec fn model(self) -> ColorModel {
        ColorModel { r: self.r as int, g: self.g as int, b: self.b as int, a: self.a as int }
    }

    /// Builds a color from integer channels, normalizing each by 255 and
    /// fixing alpha at 1.0. Out-of-range inputs are kept as given (the
    /// resulting channel value falls outside [0, 1]); staying in range is
    /// the caller's responsibility.
    pub fn rgb(r: i32, g: i32, b: i32) -> (c: Color)
        ensures
            c.model() == from_channels(r as int, g as int, b as int),
    {
        Color { r: r as i64, g: g as i64, b: b as i64, a: 255 }
    }
}

/// The color a `{r, g, b}` style node denotes: the three integer channels,
/// normalized as by [`from_channels`], with alpha fixed at full opacity.
/// A missing channel field is [`StyleError::MissingField`]; a channel that
/// is not an integer is [`StyleError::TypeMismatch`]; fields are examined
/// in the order r, g, b.
pub open spec fn color_from_node(n: JsonV) -> Result<ColorModel, StyleError> {
    match node_field(n, "r"@) {
        None => Err(StyleError::MissingField),
        Some(rv) => match rv {
            JsonV::Int(r) => match node_field(n, "g"@) {
                None => Err(StyleError::MissingField),
                Some(gv) => match gv {
                    JsonV::Int(g) => match node_field(n, "b"@) {
                        None => Err(StyleError::MissingField),
                        Some(bv) => match bv {
                            JsonV::Int(b) => Ok(from_channels(r, g, b)),
                            _ => Err(StyleError::TypeMismatch),
                        },
                    },
                    _ => Err(StyleError::TypeMismatch),
                },
            },
            _ => Err(StyleError::TypeMismatch),
        },
    }
}

impl Color {
    /// Parses a color from a style node holding integer "r", "g" and "b"
    /// fields; alpha is never read and is fixed at full opacity. Fails
    /// with `MissingField` where a channel is absent (or the node is not
    /// an object) and with `TypeMismatch` where one is not an integer.
    pub fn from_json(obj: &Json) -> (c: Result<Color, StyleError>)
        ensures
            match c {
                Ok(col) => color_from_node(jview(*obj)) == Ok::<ColorModel, StyleError>(
                    col.model(),
                ),
                Err(e) => color_from_node(jview(*obj)) == Err::<ColorModel, StyleError>(e),
            },
    {
        let key_r: String = "r".to_owned();
        let key_g: String = "g".to_owned();
        let key_b: String = "b".to_owned();
        let rv = match obj.get(&key_r) {
            None => {
                return Err(StyleError::MissingField);
            },
            Some(node) => match node {
                Json::Int(x) => *x,
                _ => {
                    return Err(StyleError::TypeMismatch);
                },
            },
        };
        let gv = match obj.get(&key_g) {
            None => {
                return Err(StyleError::MissingField);
            },
            Some(node) => match node {
                Json::Int(x) => *x,
                _ => {
                    return Err(StyleError::TypeMismatch);
                },
            },
        };
        let bv = match obj.get(&key_b) {
            None => {
                return Err(StyleError::MissingField);
            },
            Some(node) => match node {
                Json::Int(x) => *x,
                _ => {
                    return Err(StyleError::TypeMismatch);
                },
            },
        };
        Ok(Color { r: rv, g: gv, b: bv, a: 255 })
    }
}

/// A valid JSON color node round-trips the channel normalization: a node
/// whose "r", "g" and "b" fields hold the integers (r, g, b) parses to
/// exactly the color that [`from_channels`] builds from that triple.
pub proof fn lemma_from_json_matches_from_channels(n: JsonV, r: int, g: int, b: int)
    requires
        node_field(n, "r"@) == Some(JsonV::Int(r)),
        node_field(n, "g"@) == Some(JsonV::Int(g)),
        node_field(n, "b"@) == Some(JsonV::Int(b)),
    ensures
        color_from_node(n) == Ok::<ColorModel, StyleError>(from_channels(r, g, b)),
{
}

/// For every channel triple in [0, 255]^3, the constructed color keeps each
/// numerator, so each channel value `input / 255` lies in [0, 1]; alpha is
/// the full numerator 255, that is 1.0.
pub proof fn lemma_from_channels_normalized(r: int, g: int, b: int)
    requires
        0 <= r <= 255,
        0 <= g <= 255,
        0 <= b <= 255,
    ensures
        from_channels(r, g, b).r == r && 0 <= from_channels(r, g, b).r <= 255,
        from_channels(r, g, b).g == g && 0 <= from_channels(r, g, b).g <= 255,
        from_channels(r, g, b).b == b && 0 <= from_channels(r, g, b).b <= 255,
        from_channels(r, g, b).a == 255,
{
}

} // verus!
