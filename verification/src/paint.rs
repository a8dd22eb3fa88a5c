//! Colours, gradients, fills, strokes and affine transforms.

use vstd::prelude::*;
use crate::fixed::{Real, UNIT};

verus! {

/// A colour by its red, green, blue and alpha channels, each a ratio
/// between zero and `UNIT`.
#[derive(Clone, Copy, Debug, PartialEq, Eq, Structural)]
pub struct Color {
    pub r: Real,
    pub g: Real,
    pub b: Real,
    pub a: Real,
}

impl Color {
    /// Opaque black, the colour of text that names none.
    pub open spec fn black() -> Color {
        Color { r: 0, g: 0, b: 0, a: UNIT }
    }
}

impl Default for Color {
    /// Opaque black.
    fn default() -> (c: Color)
        ensures
            c == Color::black(),
    {
        Color { r: 0, g: 0, b: 0, a: UNIT }
    }
}

/// A colour transition.
#[derive(Clone, Copy, Debug, PartialEq, Eq)]
pub enum Gradient {
    Linear { start: (Real, Real), end: (Real, Real), start_color: Color, end_color: Color },
    Box {
        position: (Real, Real),
        size: (Real, Real),
        radius: Real,
        feather: Real,
        start_color: Color,
        end_color: Color,
    },
    Radial {
        center: (Real, Real),
        inner_radius: Real,
        outer_radius: Real,
        start_color: Color,
        end_color: Color,
    },
}

/// What an outline or an interior is painted with.
#[derive(Clone, Copy, Debug, PartialEq, Eq)]
pub enum Paint {
    Color(Color),
    Gradient(Gradient),
}

/// The paint of a shape's interior.
#[derive(Clone, Copy, Debug, PartialEq, Eq)]
pub struct Fill {
    pub paint: Paint,
}

/// How the ends of an open outline are drawn.
#[derive(Clone, Copy, Debug, PartialEq, Eq, Structural)]
pub enum LineCap {
    Butt,
    Round,
    Square,
}

/// How the corners of an outline are drawn.
#[derive(Clone, Copy, Debug, PartialEq, Eq, Structural)]
pub enum LineJoin {
    Miter,
    Round,
    Bevel,
}

/// The paint and style of a shape's outline.
#[derive(Clone, Copy, Debug, PartialEq, Eq)]
pub struct Stroke {
    pub paint: Paint,
    pub width: Real,
    pub line_cap: LineCap,
    pub line_join: LineJoin,
    pub miter_limit: Real,
}

/// An affine transform by the six entries of its matrix. It applies to the
/// node that carries it and to nothing below that node.
#[derive(Clone, Copy, Debug, PartialEq, Eq)]
pub struct Transform {
    pub matrix: (Real, Real, Real, Real, Real, Real),
    /// Whether the matrix replaces the transform in force instead of
    /// being composed with it.
    pub absolute: bool,
}

} // verus!
