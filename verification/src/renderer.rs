//! The renderer: lays a tree out in the drawing surface and issues the
//! drawing operations for it.

use vstd::prelude::*;
use crate::bounds::{law_union_is_least_cover, least_cover, union_of, BoundingBox};
use crate::draw::{
    draw_ops, draw_ops_in, drawable, outline_ops, paint_ops, pen_after, shape_ops, supported,
    text_below, Pen,
};
use crate::fixed::{half, minus, plus, Real};
use crate::frame::{DrawOp, Frame, PathOptions, StrokeOptions, TextOptions, TextRun};
use crate::laws::lemma_recalc_keeps_drawable;
use crate::layout::{
    child_bounds, child_recalc, lemma_inner_bound_is_union, lemma_recalc_childs_index,
    lemma_recalc_childs_next, lemma_recalc_next, lemma_words_in_monotonic, recalc, recalc_childs,
    text_of, word_bound, words, words_in,
};
use crate::measure::{lemma_runs_len, measure_run, runs, runs_in, words_are_leaves};
use crate::paint::{Color, Fill, Paint, Stroke, Transform};
use crate::shape::{Align, AlignHor, Node, PathCommand, Shape, Text};

verus! {

/// The drawing surface.
#[derive(Clone, Copy, Debug, PartialEq, Eq, Structural)]
pub struct Renderer {
    pub width: Real,
    pub height: Real,
    pub device_pixel_ratio: Real,
}

impl Renderer {
    /// A surface without extent.
    pub fn new() -> (renderer: Renderer)
        ensures
            renderer == (Renderer { width: 0, height: 0, device_pixel_ratio: 0 }),
    {
        Renderer { width: 0, height: 0, device_pixel_ratio: 0 }
    }

    /// The same surface with another width.
    pub fn with_width(self, width: Real) -> (renderer: Renderer)
        ensures
            renderer == (Renderer { width, ..self }),
    {
        Renderer { width, height: self.height, device_pixel_ratio: self.device_pixel_ratio }
    }

    /// The same surface with another height.
    pub fn with_height(self, height: Real) -> (renderer: Renderer)
        ensures
            renderer == (Renderer { height, ..self }),
    {
        Renderer { width: self.width, height, device_pixel_ratio: self.device_pixel_ratio }
    }

    /// The same surface with another ratio of device pixels to pixels.
    pub fn with_device_pixel_ratio(self, device_pixel_ratio: Real) -> (renderer: Renderer)
        ensures
            renderer == (Renderer { device_pixel_ratio, ..self }),
    {
        Renderer { width: self.width, height: self.height, device_pixel_ratio }
    }

    /// The bound of the surface: from the origin to its width and height.
    pub open spec fn spec_bound(&self) -> BoundingBox {
        BoundingBox { min_x: 0, min_y: 0, max_x: self.width, max_y: self.height }
    }

    /// The bound of the surface: from the origin to its width and height.
    #[verifier::when_used_as_spec(spec_bound)]
    pub fn bound(&self) -> (bound: BoundingBox)
        ensures
            bound == self.spec_bound(),
    {
        BoundingBox { min_x: 0, min_y: 0, max_x: self.width, max_y: self.height }
    }

    /// Renders one frame: lays `node` out in the surface, then issues its
    /// drawing operations to `frame`. The frame holds the measured extents
    /// of the text runs that [`Renderer::text_runs`] lists for the surface.
    pub fn render(&self, frame: &mut Frame, node: &mut Node)
        requires
            old(frame).cursor + words(old(node)@, false) <= old(frame).boxes@.len(),
            drawable(old(node)@),
        ensures
            ({
                let laid = recalc(
                    old(node)@,
                    self.bound(),
                    None,
                    old(frame).boxes@,
                    old(frame).cursor as nat,
                );
                &&& final(node)@ == laid.node
                &&& final(frame).cursor == laid.next
                &&& final(frame).ops@ == old(frame).ops@ + draw_ops(laid.node, None)
            }),
            final(frame).boxes == old(frame).boxes,
    {
        proof {
            lemma_recalc_keeps_drawable(
                old(node)@,
                self.bound(),
                None,
                old(frame).boxes@,
                old(frame).cursor as nat,
            );
        }
        let bound = self.bound();
        Self::render_recalc(frame, node, bound, None);
        Self::render_draw(frame, node, None);
    }

    /// The text runs of `draw` that the backend has to measure before
    /// `draw` is laid out in `parent_bound` under `text`, in the order in
    /// which layout takes their extents.
    pub fn text_runs(draw: &Node, parent_bound: BoundingBox, text: Option<&Text>) -> (out: Vec<
        TextRun,
    >)
        requires
            words_are_leaves(draw@, text is Some),
        ensures
            out@ == runs(draw@, parent_bound, text_of(text)),
            out@.len() == words(draw@, text is Some),
    {
        proof {
            lemma_runs_len(draw@, parent_bound, text_of(text));
        }
        let mut out: Vec<TextRun> = Vec::new();
        Self::collect_runs(draw, parent_bound, text, &mut out);
        assert(out@ =~= runs(draw@, parent_bound, text_of(text)));
        out
    }

    /// Appends the runs of `draw` to `out`.
    fn collect_runs(
        draw: &Node,
        parent_bound: BoundingBox,
        text: Option<&Text>,
        out: &mut Vec<TextRun>,
    )
        requires
            words_are_leaves(draw@, text is Some),
        ensures
            final(out)@ == old(out)@ + runs(draw@, parent_bound, text_of(text)),
        decreases draw, 1nat,
    {
        match &draw.shape {
            Shape::Rect(r) => {
                let mut pushed = *r;
                pushed.set_by_pct(parent_bound);
                Self::collect_child_runs(draw, pushed.bound(), text, out);
            },
            Shape::Circle(c) => {
                let mut pushed = *c;
                pushed.set_by_pct(parent_bound);
                Self::collect_child_runs(draw, pushed.bound(), text, out);
            },
            Shape::Text(t) => {
                let mut placed = t.duplicate();
                placed.set_by_pct(parent_bound);
                Self::collect_child_runs(draw, parent_bound, Some(&placed), out);
            },
            Shape::Word(content) => {
                match text {
                    Some(t) => {
                        out.push(Self::measure_run(t, content));
                        assert(out@ =~= old(out)@ + runs(draw@, parent_bound, text_of(text)));
                    },
                    None => {
                        Self::collect_child_runs(draw, parent_bound, text, out);
                    },
                }
            },
            _ => {
                Self::collect_child_runs(draw, parent_bound, text, out);
            },
        }
    }

    /// Appends the runs of the children of `draw`, each laid out in
    /// `bound` under `text`, to `out`.
    fn collect_child_runs(
        draw: &Node,
        bound: BoundingBox,
        text: Option<&Text>,
        out: &mut Vec<TextRun>,
    )
        requires
            forall|i: int|
                0 <= i < draw@.childs.len() ==> words_are_leaves(
                    #[trigger] draw@.childs[i],
                    text is Some,
                ),
        ensures
            final(out)@ == old(out)@ + runs_in(
                draw@.childs,
                bound,
                text_of(text),
                draw@.childs.len(),
            ),
        decreases draw, 0nat,
    {
        let n = draw.childs.len();
        let mut i: usize = 0;
        assert(out@ =~= old(out)@ + runs_in(draw@.childs, bound, text_of(text), 0));
        while i < n
            invariant
                i <= n,
                n == draw.childs@.len(),
                n == draw@.childs.len(),
                forall|j: int|
                    0 <= j < draw@.childs.len() ==> words_are_leaves(
                        #[trigger] draw@.childs[j],
                        text is Some,
                    ),
                out@ == old(out)@ + runs_in(draw@.childs, bound, text_of(text), i as nat),
            decreases n - i,
        {
            assert(draw@.childs[i as int] == draw.childs@[i as int]@);
            Self::collect_runs(&draw.childs[i], bound, text, out);
            assert(out@ =~= old(out)@ + runs_in(
                draw@.childs,
                bound,
                text_of(text),
                (i + 1) as nat,
            ));
            i = i + 1;
        }
    }

    /// The run that the backend measures for `content` under `text`.
    fn measure_run(text: &Text, content: &String) -> (run: TextRun)
        ensures
            run == measure_run(*text, *content),
    {
        let drawn = Self::text_options(text);
        let options = match text.align.hor {
            AlignHor::Center => TextOptions {
                color: drawn.color,
                size: drawn.size,
                align: Align { hor: AlignHor::Left, ver: text.align.ver },
                transform: drawn.transform,
            },
            _ => drawn,
        };
        TextRun {
            font_name: text.font_name.clone(),
            x: text.x.val(),
            y: text.y.val(),
            content: content.clone(),
            options,
        }
    }

    /// Lays out `draw` in the bound `parent_bound` of the enclosing node
    /// and returns the bound of `draw`. `text` is the text container that
    /// encloses `draw`, if there is one. Each text run in a text container
    /// takes the next measured extent of `frame`.
    pub fn render_recalc(
        frame: &mut Frame,
        draw: &mut Node,
        parent_bound: BoundingBox,
        text: Option<&Text>,
    ) -> (bound: BoundingBox)
        requires
            old(frame).cursor + words(old(draw)@, text is Some) <= old(frame).boxes@.len(),
        ensures
            ({
                let laid = recalc(
                    old(draw)@,
                    parent_bound,
                    text_of(text),
                    old(frame).boxes@,
                    old(frame).cursor as nat,
                );
                &&& final(draw)@ == laid.node
                &&& bound == laid.bound
                &&& final(frame).cursor == laid.next
            }),
            final(frame).cursor == old(frame).cursor + words(old(draw)@, text is Some),
            final(frame).boxes == old(frame).boxes,
            final(frame).ops == old(frame).ops,
        decreases old(draw).childs, 1nat,
    {
        proof {
            lemma_recalc_next(
                old(draw)@,
                parent_bound,
                text_of(text),
                old(frame).boxes@,
                old(frame).cursor as nat,
            );
        }
        let mut bound = parent_bound;
        match &mut draw.shape {
            Shape::Rect(r) => {
                r.set_by_pct(parent_bound);
                bound = r.bound();
            },
            Shape::Circle(c) => {
                c.set_by_pct(parent_bound);
                bound = c.bound();
            },
            Shape::Text(t) => {
                t.set_by_pct(parent_bound);
                let placed = t.duplicate();
                return Self::calc_inner_bound(frame, draw, bound, Some(&placed));
            },
            Shape::Word(_) => {
                if let Some(t) = text {
                    assert(frame.cursor < frame.boxes.len());
                    let measured = frame.boxes[frame.cursor];
                    frame.cursor = frame.cursor + 1;
                    bound = Self::word_bound(t, measured);
                }
            },
            _ => {},
        }
        let inner_bound = Self::calc_inner_bound(frame, draw, bound, text);
        match &mut draw.shape {
            Shape::Rect(r) => {
                r.set_by_auto(inner_bound);
                bound = r.bound();
            },
            Shape::Circle(c) => {
                c.set_by_auto(inner_bound);
                bound = c.bound();
            },
            _ => {},
        }
        bound
    }

    /// The bound of a text run under `text`, from its measured extent.
    fn word_bound(text: &Text, measured: BoundingBox) -> (bound: BoundingBox)
        ensures
            bound == word_bound(*text, measured),
    {
        match text.align.hor {
            AlignHor::Center => {
                let shift = half(minus(measured.max_x, measured.min_x));
                BoundingBox {
                    min_x: minus(measured.min_x, shift),
                    min_y: measured.min_y,
                    max_x: minus(measured.max_x, shift),
                    max_y: measured.max_y,
                }
            },
            _ => measured,
        }
    }

    /// Lays out the children of `draw`, each in `bound`, and returns the
    /// union of their bounds: the least box that holds the bound of every
    /// child, and the zero box where there are none.
    pub fn calc_inner_bound(
        frame: &mut Frame,
        draw: &mut Node,
        bound: BoundingBox,
        text: Option<&Text>,
    ) -> (inner_bound: BoundingBox)
        requires
            old(frame).cursor + words_in(
                old(draw)@.childs,
                text is Some,
                old(draw)@.childs.len(),
            ) <= old(frame).boxes@.len(),
        ensures
            ({
                let inner = recalc_childs(
                    old(draw)@.childs,
                    bound,
                    text_of(text),
                    old(frame).boxes@,
                    old(frame).cursor as nat,
                    old(draw)@.childs.len(),
                );
                &&& final(draw)@.childs == inner.childs
                &&& inner_bound == inner.bound
                &&& final(frame).cursor == inner.next
            }),
            ({
                let each = child_bounds(
                    old(draw)@.childs,
                    bound,
                    text_of(text),
                    old(frame).boxes@,
                    old(frame).cursor as nat,
                );
                &&& each.len() == old(draw)@.childs.len()
                &&& inner_bound == union_of(each, each.len())
                &&& each.len() >= 1 ==> least_cover(inner_bound, each)
                &&& each.len() == 0 ==> {
                    &&& inner_bound == BoundingBox::zero()
                    &&& final(draw)@ == old(draw)@
                    &&& final(frame).cursor == old(frame).cursor
                }
            }),
            forall|i: int|
                0 <= i < old(draw)@.childs.len() ==> final(draw)@.childs[i] == (
                #[trigger] child_recalc(
                    old(draw)@.childs,
                    bound,
                    text_of(text),
                    old(frame).boxes@,
                    old(frame).cursor as nat,
                    i,
                )).node,
            final(draw).shape == old(draw).shape,
            final(draw).id == old(draw).id,
            final(draw).modifier == old(draw).modifier,
            final(frame).boxes == old(frame).boxes,
            final(frame).ops == old(frame).ops,
        decreases old(draw).childs, 0nat,
    {
        let n = draw.childs.len();
        let ghost childs = old(draw)@.childs;
        let ghost boxes = old(frame).boxes@;
        let ghost start = old(frame).cursor as nat;
        let ghost in_text = text is Some;
        let mut inner_bound = BoundingBox::default();
        let mut i: usize = 0;
        while i < n
            invariant
                i <= n,
                n == draw.childs@.len(),
                n == childs.len(),
                childs == old(draw)@.childs,
                boxes == old(frame).boxes@,
                start == old(frame).cursor,
                in_text == (text is Some),
                draw.shape == old(draw).shape,
                draw.id == old(draw).id,
                draw.modifier == old(draw).modifier,
                frame.boxes == old(frame).boxes,
                frame.ops == old(frame).ops,
                start + words_in(childs, in_text, n as nat) <= boxes.len(),
                forall|j: int| i <= j < n ==> draw.childs@[j] == old(draw).childs@[j],
                ({
                    let done = recalc_childs(childs, bound, text_of(text), boxes, start, i as nat);
                    &&& frame.cursor == done.next
                    &&& inner_bound == done.bound
                    &&& done.childs.len() == i
                    &&& forall|j: int| 0 <= j < i ==> draw.childs@[j]@ == done.childs[j]
                }),
            decreases n - i,
        {
            proof {
                lemma_recalc_childs_next(childs, bound, text_of(text), boxes, start, i as nat);
                lemma_words_in_monotonic(childs, in_text, (i + 1) as nat, n as nat);
                assert(childs[i as int] == old(draw).childs@[i as int]@);
            }
            let child_bound = Self::render_recalc(frame, &mut draw.childs[i], bound, text);
            inner_bound = if i == 0 {
                child_bound
            } else {
                inner_bound.union(child_bound)
            };
            i = i + 1;
        }
        proof {
            let inner = recalc_childs(childs, bound, text_of(text), boxes, start, n as nat);
            let each = child_bounds(childs, bound, text_of(text), boxes, start);
            assert(draw@.childs =~= inner.childs);
            lemma_inner_bound_is_union(childs, bound, text_of(text), boxes, start, n as nat);
            if n >= 1 {
                law_union_is_least_cover(each);
            } else {
                assert(draw@.childs =~= old(draw)@.childs);
            }
            assert forall|j: int| 0 <= j < n implies draw@.childs[j] == (#[trigger] child_recalc(
                childs,
                bound,
                text_of(text),
                boxes,
                start,
                j,
            )).node by {
                lemma_recalc_childs_index(childs, bound, text_of(text), boxes, start, n as nat, j);
            }
        }
        inner_bound
    }

    /// Issues the drawing operations of the tree `draw` to `frame`: those
    /// of the node, then those of its children in order. `text` is the text
    /// container that encloses `draw`, if there is one.
    pub fn render_draw(frame: &mut Frame, draw: &Node, text: Option<&Text>)
        requires
            drawable(draw@),
        ensures
            final(frame).ops@ == old(frame).ops@ + draw_ops(draw@, text_of(text)),
            final(frame).boxes == old(frame).boxes,
            final(frame).cursor == old(frame).cursor,
        decreases draw,
    {
        let ghost before = frame.ops@;
        let mut below = text;
        match &draw.shape {
            Shape::Rect(r) => {
                frame.ops.push(DrawOp::BeginPath(Self::path_options(r.transform.as_ref())));
                frame.ops.push(
                    DrawOp::Rect {
                        x: r.x.val(),
                        y: r.y.val(),
                        width: r.width.val(),
                        height: r.height.val(),
                    },
                );
                Self::paint(frame, r.fill, r.stroke);
                frame.ops.push(DrawOp::EndPath);
            },
            Shape::Circle(c) => {
                frame.ops.push(DrawOp::BeginPath(Self::path_options(c.transform.as_ref())));
                frame.ops.push(DrawOp::Circle { cx: c.cx.val(), cy: c.cy.val(), r: c.r.val() });
                Self::paint(frame, c.fill, c.stroke);
                frame.ops.push(DrawOp::EndPath);
            },
            Shape::Path(p) => {
                frame.ops.push(DrawOp::BeginPath(Self::path_options(p.transform.as_ref())));
                Self::outline(frame, &p.cmd);
                Self::paint(frame, p.fill, p.stroke);
                frame.ops.push(DrawOp::EndPath);
            },
            Shape::Text(t) => {
                below = Some(t);
            },
            Shape::Word(content) => {
                if let Some(t) = text {
                    frame.ops.push(
                        DrawOp::Text(
                            TextRun {
                                font_name: t.font_name.clone(),
                                x: t.x.val(),
                                y: t.y.val(),
                                content: content.clone(),
                                options: Self::text_options(t),
                            },
                        ),
                    );
                }
            },
            Shape::Group => {},
        }
        assert(frame.ops@ =~= before + shape_ops(draw.shape, text_of(text)));
        assert(text_of(below) == text_below(draw.shape, text_of(text)));
        let n = draw.childs.len();
        let mut i: usize = 0;
        while i < n
            invariant
                i <= n,
                n == draw.childs@.len(),
                drawable(draw@),
                frame.boxes == old(frame).boxes,
                frame.cursor == old(frame).cursor,
                frame.ops@ == before + shape_ops(draw.shape, text_of(text)) + draw_ops_in(
                    draw@.childs,
                    text_of(below),
                    i as nat,
                ),
            decreases n - i,
        {
            let ghost issued = frame.ops@;
            assert(draw@.childs[i as int] == draw.childs@[i as int]@);
            Self::render_draw(frame, &draw.childs[i], below);
            assert(frame.ops@ =~= before + shape_ops(draw.shape, text_of(text)) + draw_ops_in(
                draw@.childs,
                text_of(below),
                (i + 1) as nat,
            ));
            i = i + 1;
        }
        assert(frame.ops@ =~= before + draw_ops(draw@, text_of(text)));
    }

    /// Issues the operations of an outline, command by command, keeping
    /// track of the current point and of the two latest control points.
    fn outline(frame: &mut Frame, cmds: &Vec<PathCommand>)
        requires
            supported(cmds@),
        ensures
            final(frame).ops@ == old(frame).ops@ + outline_ops(cmds@, cmds@.len()),
            final(frame).boxes == old(frame).boxes,
            final(frame).cursor == old(frame).cursor,
    {
        let ghost before = frame.ops@;
        let mut x: Real = 0;
        let mut y: Real = 0;
        let mut c0: (Real, Real) = (0, 0);
        let mut c1: (Real, Real) = (0, 0);
        let n = cmds.len();
        let mut i: usize = 0;
        while i < n
            invariant
                i <= n,
                n == cmds@.len(),
                supported(cmds@),
                frame.boxes == old(frame).boxes,
                frame.cursor == old(frame).cursor,
                (Pen { x, y, c0, c1 }) == pen_after(cmds@, i as nat),
                frame.ops@ == before + outline_ops(cmds@, i as nat),
            decreases n - i,
        {
            let ghost pen = Pen { x, y, c0, c1 };
            let ghost issued = frame.ops@;
            let cmd = cmds[i];
            assert(cmd.is_supported());
            match cmd {
                PathCommand::Move(px, py) => {
                    x = px;
                    y = py;
                    frame.ops.push(DrawOp::MoveTo { x, y });
                },
                PathCommand::MoveRel(dx, dy) => {
                    x = plus(x, dx);
                    y = plus(y, dy);
                    frame.ops.push(DrawOp::MoveTo { x, y });
                },
                PathCommand::Line(px, py) => {
                    x = px;
                    y = py;
                    frame.ops.push(DrawOp::LineTo { x, y });
                },
                PathCommand::LineRel(dx, dy) => {
                    x = plus(x, dx);
                    y = plus(y, dy);
                    frame.ops.push(DrawOp::LineTo { x, y });
                },
                PathCommand::LineAlonX(px) => {
                    x = px;
                    frame.ops.push(DrawOp::LineTo { x, y });
                },
                PathCommand::LineAlonXRel(dx) => {
                    x = plus(x, dx);
                    frame.ops.push(DrawOp::LineTo { x, y });
                },
                PathCommand::LineAlonY(py) => {
                    y = py;
                    frame.ops.push(DrawOp::LineTo { x, y });
                },
                PathCommand::LineAlonYRel(dy) => {
                    y = plus(y, dy);
                    frame.ops.push(DrawOp::LineTo { x, y });
                },
                PathCommand::Close => {
                    frame.ops.push(DrawOp::Close);
                },
                PathCommand::BezCtrl(px, py) => {
                    c0 = c1;
                    c1 = (px, py);
                },
                PathCommand::BezCtrlRel(dx, dy) => {
                    c0 = c1;
                    c1 = (plus(x, dx), plus(y, dy));
                },
                PathCommand::QuadBezTo(px, py) => {
                    x = px;
                    y = py;
                    frame.ops.push(DrawOp::QuadBezierTo { x, y, cx: c1.0, cy: c1.1 });
                },
                PathCommand::QuadBezToRel(dx, dy) => {
                    x = plus(x, dx);
                    y = plus(y, dy);
                    frame.ops.push(DrawOp::QuadBezierTo { x, y, cx: c1.0, cy: c1.1 });
                },
                PathCommand::CubBezTo(px, py) => {
                    x = px;
                    y = py;
                    frame.ops.push(
                        DrawOp::CubicBezierTo {
                            x,
                            y,
                            c1x: c0.0,
                            c1y: c0.1,
                            c2x: c1.0,
                            c2y: c1.1,
                        },
                    );
                },
                PathCommand::CubBezToRel(dx, dy) => {
                    x = plus(x, dx);
                    y = plus(y, dy);
                    frame.ops.push(
                        DrawOp::CubicBezierTo {
                            x,
                            y,
                            c1x: c0.0,
                            c1y: c0.1,
                            c2x: c1.0,
                            c2y: c1.1,
                        },
                    );
                },
                PathCommand::BezReflectCtrl => {},
            }
            assert((Pen { x, y, c0, c1 }) == pen.after(cmd));
            assert(frame.ops@ =~= before + outline_ops(cmds@, (i + 1) as nat));
            i = i + 1;
        }
    }

    /// Issues the operations that paint the outline built so far: the
    /// fill, if there is one, then the stroke, if there is one.
    fn paint(frame: &mut Frame, fill: Option<Fill>, stroke: Option<Stroke>)
        ensures
            final(frame).ops@ == old(frame).ops@ + paint_ops(fill, stroke),
            final(frame).boxes == old(frame).boxes,
            final(frame).cursor == old(frame).cursor,
    {
        if let Some(f) = fill {
            frame.ops.push(DrawOp::Fill(f.paint));
        }
        if let Some(s) = stroke {
            frame.ops.push(DrawOp::Stroke(s.paint, Self::stroke_option(&s)));
        }
        assert(frame.ops@ =~= old(frame).ops@ + paint_ops(fill, stroke));
    }

    /// The options of an outline: its node's own transform, if it has one.
    pub fn path_options(transform: Option<&Transform>) -> (options: PathOptions)
        ensures
            options == crate::draw::path_options(
                match transform {
                    Some(t) => Some(*t),
                    None => None,
                },
            ),
    {
        match transform {
            Some(t) => PathOptions { transform: Some(*t) },
            None => PathOptions { transform: None },
        }
    }

    /// The backend's style for a stroke.
    pub fn stroke_option(stroke: &Stroke) -> (options: StrokeOptions)
        ensures
            options == crate::draw::stroke_option(*stroke),
    {
        StrokeOptions {
            width: stroke.width,
            line_cap: stroke.line_cap,
            line_join: stroke.line_join,
            miter_limit: stroke.miter_limit,
        }
    }

    /// The backend's style for the runs of a text container. The colour is
    /// the fill's where that is a plain colour, and black otherwise.
    pub fn text_options(text: &Text) -> (options: TextOptions)
        ensures
            options == crate::draw::text_options(*text),
    {
        let color = match text.fill {
            Some(Fill { paint: Paint::Color(color) }) => color,
            _ => Color::default(),
        };
        TextOptions {
            color,
            size: text.font_size.val(),
            align: text.align,
            transform: text.transform,
        }
    }
}

} // verus!
