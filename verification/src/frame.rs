//! What one frame exchanges with the drawing backend: the measured extents
//! of its text runs, and the drawing operations in the order of issue.

use vstd::prelude::*;
use crate::bounds::BoundingBox;
use crate::fixed::Real;
use crate::paint::{Color, LineCap, LineJoin, Paint, Transform};
use crate::shape::Align;

verus! {

/// Options of one outline.
#[derive(Clone, Copy, Debug, PartialEq, Eq)]
pub struct PathOptions {
    pub transform: Option<Transform>,
}

/// The style of a stroked outline.
#[derive(Clone, Copy, Debug, PartialEq, Eq)]
pub struct StrokeOptions {
    pub width: Real,
    pub line_cap: LineCap,
    pub line_join: LineJoin,
    pub miter_limit: Real,
}

/// The style of a text run.
#[derive(Clone, Copy, Debug, PartialEq, Eq)]
pub struct TextOptions {
    pub color: Color,
    pub size: Real,
    pub align: Align,
    pub transform: Option<Transform>,
}

/// A text run as the backend gets it, for measuring or for drawing.
#[derive(Clone, Debug, PartialEq, Eq)]
pub struct TextRun {
    pub font_name: String,
    pub x: Real,
    pub y: Real,
    pub content: String,
    pub options: TextOptions,
}

/// One call on the drawing backend.
#[derive(Clone, Debug, PartialEq, Eq)]
pub enum DrawOp {
    /// Starts an outline under the given options.
    BeginPath(PathOptions),
    Rect { x: Real, y: Real, width: Real, height: Real },
    Circle { cx: Real, cy: Real, r: Real },
    MoveTo { x: Real, y: Real },
    LineTo { x: Real, y: Real },
    QuadBezierTo { x: Real, y: Real, cx: Real, cy: Real },
    CubicBezierTo { x: Real, y: Real, c1x: Real, c1y: Real, c2x: Real, c2y: Real },
    Close,
    /// Fills the outline built so far.
    Fill(Paint),
    /// Strokes the outline built so far.
    Stroke(Paint, StrokeOptions),
    /// Ends the outline and drops its options.
    EndPath,
    /// Draws a text run.
    Text(TextRun),
}

/// The backend's side of one frame. `boxes` holds the extent that the
/// backend measured for each text run of the tree, in tree order; `cursor`
/// counts those that layout has used; `ops` collects what is to be drawn.
#[derive(Debug)]
pub struct Frame {
    pub boxes: Vec<BoundingBox>,
    pub cursor: usize,
    pub ops: Vec<DrawOp>,
}

impl Frame {
    /// A frame that holds the given measurements and no drawing yet.
    pub fn new(boxes: Vec<BoundingBox>) -> (frame: Frame)
        ensures
            frame.boxes == boxes,
            frame.cursor == 0,
            frame.ops@ == Seq::<DrawOp>::empty(),
    {
        Frame { boxes, cursor: 0, ops: Vec::new() }
    }

    /// The number of measurements that layout has not used yet.
    pub open spec fn spec_remaining(&self) -> nat {
        if self.cursor <= self.boxes@.len() {
            (self.boxes@.len() - self.cursor) as nat
        } else {
            0
        }
    }

    /// The number of measurements that layout has not used yet.
    pub fn remaining(&self) -> (n: usize)
        ensures
            n == self.spec_remaining(),
    {
        if self.cursor <= self.boxes.len() {
            self.boxes.len() - self.cursor
        } else {
            0
        }
    }
}

} // verus!
