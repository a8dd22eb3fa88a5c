//! The drawing rules: which operations a laid-out tree issues, and in
//! which order.

use vstd::prelude::*;
use crate::fixed::{plus, Real};
use crate::frame::{DrawOp, PathOptions, StrokeOptions, TextOptions, TextRun};
use crate::paint::{Color, Fill, Paint, Stroke, Transform};
use crate::shape::{Node, NodeView, PathCommand, Shape, Text};

verus! {

/// The options of an outline: its node's own transform, if it has one.
pub open spec fn path_options(transform: Option<Transform>) -> PathOptions {
    PathOptions { transform }
}

/// The backend's style for a stroke.
pub open spec fn stroke_option(stroke: Stroke) -> StrokeOptions {
    StrokeOptions {
        width: stroke.width,
        line_cap: stroke.line_cap,
        line_join: stroke.line_join,
        miter_limit: stroke.miter_limit,
    }
}

/// The colour of text with the given fill: the fill's colour where it is a
/// plain colour, black where there is no fill or the fill is a gradient.
pub open spec fn text_color(fill: Option<Fill>) -> Color {
    match fill {
        Some(Fill { paint: Paint::Color(color) }) => color,
        _ => Color::black(),
    }
}

/// The backend's style for the runs of a text container.
pub open spec fn text_options(text: Text) -> TextOptions {
    TextOptions {
        color: text_color(text.fill),
        size: text.font_size.val,
        align: text.align,
        transform: text.transform,
    }
}

/// The run that draws `content` under the container `text`.
pub open spec fn text_run(text: Text, content: String) -> TextRun {
    TextRun {
        font_name: text.font_name,
        x: text.x.val,
        y: text.y.val,
        content,
        options: text_options(text),
    }
}

/// The operations that paint an outline: the fill first, then the stroke.
pub open spec fn paint_ops(fill: Option<Fill>, stroke: Option<Stroke>) -> Seq<DrawOp> {
    let filled = match fill {
        Some(f) => seq![DrawOp::Fill(f.paint)],
        None => Seq::empty(),
    };
    let stroked = match stroke {
        Some(s) => seq![DrawOp::Stroke(s.paint, stroke_option(s))],
        None => Seq::empty(),
    };
    filled + stroked
}

/// What the interpretation of an outline remembers between commands: the
/// current point, and the two latest control points, oldest first.
pub struct Pen {
    pub x: Real,
    pub y: Real,
    pub c0: (Real, Real),
    pub c1: (Real, Real),
}

impl Pen {
    /// The pen before the first command: everything at the origin.
    pub open spec fn start() -> Pen {
        Pen { x: 0, y: 0, c0: (0, 0), c1: (0, 0) }
    }

    /// The pen after `cmd`. A command that draws to a point moves the
    /// current point there; a control command shifts the control points by
    /// one and leaves the current point; closing changes nothing.
    pub open spec fn after(self, cmd: PathCommand) -> Pen {
        match cmd {
            PathCommand::Move(x, y)
            | PathCommand::Line(x, y)
            | PathCommand::QuadBezTo(x, y)
            | PathCommand::CubBezTo(x, y) => Pen { x, y, ..self },
            PathCommand::MoveRel(dx, dy)
            | PathCommand::LineRel(dx, dy)
            | PathCommand::QuadBezToRel(dx, dy)
            | PathCommand::CubBezToRel(dx, dy) => Pen {
                x: plus(self.x, dx),
                y: plus(self.y, dy),
                ..self
            },
            PathCommand::LineAlonX(x) => Pen { x, ..self },
            PathCommand::LineAlonXRel(dx) => Pen { x: plus(self.x, dx), ..self },
            PathCommand::LineAlonY(y) => Pen { y, ..self },
            PathCommand::LineAlonYRel(dy) => Pen { y: plus(self.y, dy), ..self },
            PathCommand::BezCtrl(x, y) => Pen { c0: self.c1, c1: (x, y), ..self },
            PathCommand::BezCtrlRel(dx, dy) => Pen {
                c0: self.c1,
                c1: (plus(self.x, dx), plus(self.y, dy)),
                ..self
            },
            PathCommand::Close | PathCommand::BezReflectCtrl => self,
        }
    }

    /// The operation that `cmd` issues when the pen is `self`, in absolute
    /// coordinates. Control commands issue none.
    pub open spec fn op(self, cmd: PathCommand) -> Option<DrawOp> {
        let to = self.after(cmd);
        match cmd {
            PathCommand::Move(..) | PathCommand::MoveRel(..) => Some(
                DrawOp::MoveTo { x: to.x, y: to.y },
            ),
            PathCommand::Line(..)
            | PathCommand::LineRel(..)
            | PathCommand::LineAlonX(..)
            | PathCommand::LineAlonXRel(..)
            | PathCommand::LineAlonY(..)
            | PathCommand::LineAlonYRel(..) => Some(DrawOp::LineTo { x: to.x, y: to.y }),
            PathCommand::QuadBezTo(..) | PathCommand::QuadBezToRel(..) => Some(
                DrawOp::QuadBezierTo { x: to.x, y: to.y, cx: self.c1.0, cy: self.c1.1 },
            ),
            PathCommand::CubBezTo(..) | PathCommand::CubBezToRel(..) => Some(
                DrawOp::CubicBezierTo {
                    x: to.x,
                    y: to.y,
                    c1x: self.c0.0,
                    c1y: self.c0.1,
                    c2x: self.c1.0,
                    c2y: self.c1.1,
                },
            ),
            PathCommand::Close => Some(DrawOp::Close),
            PathCommand::BezCtrl(..)
            | PathCommand::BezCtrlRel(..)
            | PathCommand::BezReflectCtrl => None,
        }
    }
}

/// The pen after the first `upto` of `cmds`.
pub open spec fn pen_after(cmds: Seq<PathCommand>, upto: nat) -> Pen
    decreases upto,
{
    if upto == 0 || upto > cmds.len() {
        Pen::start()
    } else {
        pen_after(cmds, (upto - 1) as nat).after(cmds[upto - 1])
    }
}

/// The operations that the first `upto` of `cmds` issue.
pub open spec fn outline_ops(cmds: Seq<PathCommand>, upto: nat) -> Seq<DrawOp>
    decreases upto,
{
    if upto == 0 || upto > cmds.len() {
        Seq::empty()
    } else {
        let before = outline_ops(cmds, (upto - 1) as nat);
        match pen_after(cmds, (upto - 1) as nat).op(cmds[upto - 1]) {
            Some(op) => before.push(op),
            None => before,
        }
    }
}

/// Whether a drawing rule exists for every command.
pub open spec fn supported(cmds: Seq<PathCommand>) -> bool {
    forall|i: int| 0 <= i < cmds.len() ==> (#[trigger] cmds[i]).is_supported()
}

/// The operations that a shape issues for itself. `text` is the text
/// container that encloses it, if there is one: a run outside any
/// container draws nothing, and neither does a group or a container.
pub open spec fn shape_ops(shape: Shape, text: Option<Text>) -> Seq<DrawOp> {
    match shape {
        Shape::Rect(r) => seq![
            DrawOp::BeginPath(path_options(r.transform)),
            DrawOp::Rect { x: r.x.val, y: r.y.val, width: r.width.val, height: r.height.val },
        ] + paint_ops(r.fill, r.stroke) + seq![DrawOp::EndPath],
        Shape::Circle(c) => seq![
            DrawOp::BeginPath(path_options(c.transform)),
            DrawOp::Circle { cx: c.cx.val, cy: c.cy.val, r: c.r.val },
        ] + paint_ops(c.fill, c.stroke) + seq![DrawOp::EndPath],
        Shape::Path(p) => seq![DrawOp::BeginPath(path_options(p.transform))] + outline_ops(
            p.cmd@,
            p.cmd@.len(),
        ) + paint_ops(p.fill, p.stroke) + seq![DrawOp::EndPath],
        Shape::Word(content) => match text {
            Some(t) => seq![DrawOp::Text(text_run(t, content))],
            None => Seq::empty(),
        },
        Shape::Text(_) | Shape::Group => Seq::empty(),
    }
}

/// The text container in force below a node with the given shape.
pub open spec fn text_below(shape: Shape, text: Option<Text>) -> Option<Text> {
    match shape {
        Shape::Text(t) => Some(t),
        _ => text,
    }
}

/// The operations that a tree issues: those of the node itself, then
/// those of its children in order.
pub open spec fn draw_ops(node: NodeView, text: Option<Text>) -> Seq<DrawOp>
    decreases node, 0nat,
{
    shape_ops(node.shape, text) + draw_ops_in(
        node.childs,
        text_below(node.shape, text),
        node.childs.len(),
    )
}

/// The operations that the first `upto` of `childs` issue.
pub open spec fn draw_ops_in(childs: Seq<NodeView>, text: Option<Text>, upto: nat) -> Seq<DrawOp>
    decreases childs, upto,
{
    if upto == 0 || upto > childs.len() {
        Seq::empty()
    } else {
        draw_ops_in(childs, text, (upto - 1) as nat) + draw_ops(childs[upto - 1], text)
    }
}

/// Whether the tree can be drawn: a drawing rule exists for every command
/// of every outline in it.
pub open spec fn drawable(node: NodeView) -> bool
    decreases node,
{
    &&& node.shape matches Shape::Path(p) ==> supported(p.cmd@)
    &&& forall|i: int| 0 <= i < node.childs.len() ==> drawable(#[trigger] node.childs[i])
}

/// Whether a drawing rule exists for every command.
pub fn is_supported(cmds: &Vec<PathCommand>) -> (b: bool)
    ensures
        b == supported(cmds@),
{
    let n = cmds.len();
    let mut i: usize = 0;
    while i < n
        invariant
            i <= n,
            n == cmds@.len(),
            forall|j: int| 0 <= j < i ==> (#[trigger] cmds@[j]).is_supported(),
        decreases n - i,
    {
        if !cmds[i].is_supported() {
            return false;
        }
        i = i + 1;
    }
    true
}

impl Node {
    /// Whether the tree can be drawn: a drawing rule exists for every
    /// command of every outline in it.
    pub fn is_drawable(&self) -> (b: bool)
        ensures
            b == drawable(self@),
        decreases self,
    {
        if let Shape::Path(p) = &self.shape {
            if !is_supported(&p.cmd) {
                return false;
            }
        }
        let n = self.childs.len();
        let mut i: usize = 0;
        while i < n
            invariant
                i <= n,
                n == self.childs@.len(),
                forall|j: int| 0 <= j < i ==> drawable(#[trigger] self@.childs[j]),
            decreases n - i,
        {
            assert(self@.childs[i as int] == self.childs@[i as int]@);
            if !self.childs[i].is_drawable() {
                return false;
            }
            i = i + 1;
        }
        true
    }
}

} // verus!
