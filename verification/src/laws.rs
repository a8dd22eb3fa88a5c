//! What holds of layout, measuring and drawing taken together.

use vstd::prelude::*;
use vstd::arithmetic::div_mod::lemma_fundamental_div_mod;
use crate::bounds::{law_union_is_least_cover, least_cover, BoundingBox};
use crate::draw::{
    draw_ops, draw_ops_in, drawable, outline_ops, paint_ops, path_options, pen_after, shape_ops,
    stroke_option, text_below, text_run,
};
use crate::fixed::{Real, PERCENT_DIVISOR, UNIT};
use crate::frame::{DrawOp, TextRun};
use crate::layout::{
    child_bounds, lemma_inner_bound_is_union, lemma_recalc_childs_index, lemma_recalc_childs_next,
    lemma_recalc_childs_prefix, recalc, recalc_childs, word_bound, Inner,
};
use crate::measure::{as_measured, measure_run, measured, runs, runs_in, words_are_leaves};
use crate::paint::{Fill, Stroke};
use crate::shape::{Circle, NodeView, PathCommand, Rect, Shape, Text};
use crate::value::{Kind, Value};

verus! {

/// Whether the field is a literal.
pub open spec fn literal(value: Value) -> bool {
    value.kind is Literal
}

/// Whether every geometry field of the shape is a literal.
pub open spec fn literal_shape(shape: Shape) -> bool {
    match shape {
        Shape::Rect(r) => literal(r.x) && literal(r.y) && literal(r.width) && literal(r.height),
        Shape::Circle(c) => literal(c.cx) && literal(c.cy) && literal(c.r),
        Shape::Text(t) => literal(t.x) && literal(t.y),
        _ => true,
    }
}

/// Whether every geometry field in the tree is a literal.
pub open spec fn literal_tree(node: NodeView) -> bool
    decreases node,
{
    &&& literal_shape(node.shape)
    &&& forall|i: int| 0 <= i < node.childs.len() ==> literal_tree(#[trigger] node.childs[i])
}

/// Layout changes nothing in a tree of literals.
pub proof fn lemma_literal_tree_unchanged(
    node: NodeView,
    parent: BoundingBox,
    text: Option<Text>,
    boxes: Seq<BoundingBox>,
    at: nat,
)
    requires
        literal_tree(node),
    ensures
        recalc(node, parent, text, boxes, at).node == node,
    decreases node, 1nat,
{
    let n = node.childs.len();
    match node.shape {
        Shape::Rect(r) => {
            lemma_literal_childs_unchanged(node, r.by_pct(parent).bound(), text, boxes, at);
        },
        Shape::Circle(c) => {
            lemma_literal_childs_unchanged(node, c.by_pct(parent).bound(), text, boxes, at);
        },
        Shape::Text(t) => {
            lemma_literal_childs_unchanged(node, parent, Some(t.by_pct(parent)), boxes, at);
        },
        Shape::Word(_) => {
            match text {
                Some(t) => {
                    lemma_literal_childs_unchanged(
                        node,
                        word_bound(t, boxes[at as int]),
                        text,
                        boxes,
                        at + 1,
                    );
                },
                None => {
                    lemma_literal_childs_unchanged(node, parent, text, boxes, at);
                },
            }
        },
        _ => {
            lemma_literal_childs_unchanged(node, parent, text, boxes, at);
        },
    }
}

/// Layout changes nothing in the children of a tree of literals.
pub proof fn lemma_literal_childs_unchanged(
    node: NodeView,
    bound: BoundingBox,
    text: Option<Text>,
    boxes: Seq<BoundingBox>,
    at: nat,
)
    requires
        literal_tree(node),
    ensures
        recalc_childs(node.childs, bound, text, boxes, at, node.childs.len()).childs == node.childs,
    decreases node, 0nat,
{
    let childs = node.childs;
    let laid = recalc_childs(childs, bound, text, boxes, at, childs.len());
    lemma_recalc_childs_next(childs, bound, text, boxes, at, childs.len());
    assert forall|i: int| 0 <= i < childs.len() implies laid.childs[i] == childs[i] by {
        lemma_recalc_childs_index(childs, bound, text, boxes, at, childs.len(), i);
        lemma_literal_tree_unchanged(
            childs[i],
            bound,
            text,
            boxes,
            recalc_childs(childs, bound, text, boxes, at, i as nat).next,
        );
    }
    assert(laid.childs =~= childs);
}

/// Layout is idempotent on a tree of literals: a second pass over the
/// outcome of the first, in the same bound and with the same measurements,
/// yields the same tree and the same bound.
pub proof fn law_literal_layout_idempotent(
    node: NodeView,
    parent: BoundingBox,
    text: Option<Text>,
    boxes: Seq<BoundingBox>,
    at: nat,
)
    requires
        literal_tree(node),
    ensures
        recalc(recalc(node, parent, text, boxes, at).node, parent, text, boxes, at) == recalc(
            node,
            parent,
            text,
            boxes,
            at,
        ),
{
    lemma_literal_tree_unchanged(node, parent, text, boxes, at);
}

/// Whether no geometry field of the shape is automatic.
pub open spec fn auto_free_shape(shape: Shape) -> bool {
    match shape {
        Shape::Rect(r) => !(r.x.kind is Auto) && !(r.y.kind is Auto) && !(r.width.kind is Auto)
            && !(r.height.kind is Auto),
        Shape::Circle(c) => !(c.cx.kind is Auto) && !(c.cy.kind is Auto) && !(c.r.kind is Auto),
        _ => true,
    }
}

/// Whether no geometry field in the tree is automatic.
pub open spec fn auto_free(node: NodeView) -> bool
    decreases node,
{
    &&& auto_free_shape(node.shape)
    &&& forall|i: int| 0 <= i < node.childs.len() ==> auto_free(#[trigger] node.childs[i])
}

/// Layout is idempotent on a tree without automatic fields.
pub proof fn law_layout_idempotent(
    node: NodeView,
    parent: BoundingBox,
    text: Option<Text>,
    boxes: Seq<BoundingBox>,
    at: nat,
)
    requires
        auto_free(node),
    ensures
        recalc(recalc(node, parent, text, boxes, at).node, parent, text, boxes, at) == recalc(
            node,
            parent,
            text,
            boxes,
            at,
        ),
    decreases node, 0nat,
{
    let n = node.childs.len();
    match node.shape {
        Shape::Rect(r) => {
            let bound = r.by_pct(parent).bound();
            lemma_recalc_childs_next(node.childs, bound, text, boxes, at, n);
            lemma_childs_layout_idempotent(node.childs, bound, text, boxes, at, n);
        },
        Shape::Circle(c) => {
            let bound = c.by_pct(parent).bound();
            lemma_recalc_childs_next(node.childs, bound, text, boxes, at, n);
            lemma_childs_layout_idempotent(node.childs, bound, text, boxes, at, n);
        },
        Shape::Text(t) => {
            let placed = Some(t.by_pct(parent));
            lemma_recalc_childs_next(node.childs, parent, placed, boxes, at, n);
            lemma_childs_layout_idempotent(node.childs, parent, placed, boxes, at, n);
        },
        Shape::Word(_) => {
            match text {
                Some(t) => {
                    let bound = word_bound(t, boxes[at as int]);
                    lemma_recalc_childs_next(
                        node.childs,
                        bound,
                        text,
                        boxes,
                        at + 1,
                        n,
                    );
                    lemma_childs_layout_idempotent(node.childs, bound, text, boxes, at + 1, n);
                },
                None => {
                    lemma_recalc_childs_next(node.childs, parent, text, boxes, at, n);
                    lemma_childs_layout_idempotent(node.childs, parent, text, boxes, at, n);
                },
            }
        },
        _ => {
            lemma_recalc_childs_next(node.childs, parent, text, boxes, at, n);
            lemma_childs_layout_idempotent(node.childs, parent, text, boxes, at, n);
        },
    }
}

/// The same for the first `upto` children of a node.
pub proof fn lemma_childs_layout_idempotent(
    childs: Seq<NodeView>,
    bound: BoundingBox,
    text: Option<Text>,
    boxes: Seq<BoundingBox>,
    at: nat,
    upto: nat,
)
    requires
        upto <= childs.len(),
        forall|i: int| 0 <= i < childs.len() ==> auto_free(#[trigger] childs[i]),
    ensures
        recalc_childs(
            recalc_childs(childs, bound, text, boxes, at, upto).childs,
            bound,
            text,
            boxes,
            at,
            upto,
        ) == recalc_childs(childs, bound, text, boxes, at, upto),
    decreases childs, upto,
{
    let once = recalc_childs(childs, bound, text, boxes, at, upto);
    lemma_recalc_childs_next(childs, bound, text, boxes, at, upto);
    if upto > 0 {
        let before = recalc_childs(childs, bound, text, boxes, at, (upto - 1) as nat);
        lemma_recalc_childs_next(childs, bound, text, boxes, at, (upto - 1) as nat);
        lemma_childs_layout_idempotent(childs, bound, text, boxes, at, (upto - 1) as nat);
        lemma_recalc_childs_prefix(
            once.childs,
            before.childs,
            bound,
            text,
            boxes,
            at,
            (upto - 1) as nat,
        );
        law_layout_idempotent(childs[upto - 1], bound, text, boxes, before.next);
        let again = recalc_childs(once.childs, bound, text, boxes, at, upto);
        assert(again.childs =~= once.childs);
    } else {
        let again = recalc_childs(once.childs, bound, text, boxes, at, upto);
        assert(again.childs =~= once.childs);
    }
}

/// A percentage field resolves to exactly `origin + pct / 100 * base`
/// wherever that number is representable: where the product of the
/// percentage and the base is a whole multiple of the divisor and the sum
/// is in range.
pub proof fn law_percent_exact(value: Value, pct: Real, base: Real, origin: Real)
    requires
        value.kind == Kind::Percent(pct),
        (pct * base) % (PERCENT_DIVISOR as int) == 0,
        i64::MIN <= (pct * base) / (PERCENT_DIVISOR as int) <= i64::MAX,
        i64::MIN <= origin + (pct * base) / (PERCENT_DIVISOR as int) <= i64::MAX,
    ensures
        value.by_pct(base, origin).kind == value.kind,
        (value.by_pct(base, origin).val - origin) * 100 * UNIT == pct * base,
{
    let product = pct * base;
    let divisor = PERCENT_DIVISOR as int;
    lemma_fundamental_div_mod(product, divisor);
    assert(100 * UNIT == divisor);
    assert((product / divisor) * (100 * UNIT) == product) by (nonlinear_arith)
        requires
            product == divisor * (product / divisor) + product % divisor,
            product % divisor == 0,
            100 * UNIT == divisor,
    ;
}

/// Where the share is no whole number of millionths it is rounded down:
/// a percentage field resolves to the greatest representable number that
/// is not above `origin + pct / 100 * base`, as long as that is in range.
pub proof fn law_percent_rounds_down(value: Value, pct: Real, base: Real, origin: Real)
    requires
        value.kind == Kind::Percent(pct),
        i64::MIN <= (pct * base) / (PERCENT_DIVISOR as int) <= i64::MAX,
        i64::MIN <= origin + (pct * base) / (PERCENT_DIVISOR as int) <= i64::MAX,
    ensures
        (value.by_pct(base, origin).val - origin) * 100 * UNIT <= pct * base,
        pct * base < (value.by_pct(base, origin).val - origin + 1) * 100 * UNIT,
{
    let product = pct * base;
    let divisor = PERCENT_DIVISOR as int;
    let share = product / divisor;
    lemma_fundamental_div_mod(product, divisor);
    assert(100 * UNIT == divisor);
    assert(share * 100 * UNIT <= product < (share + 1) * 100 * UNIT) by (nonlinear_arith)
        requires
            product == divisor * share + product % divisor,
            0 <= product % divisor < divisor,
            100 * UNIT == divisor,
    ;
}

/// A field that is not a percentage is not touched by percentage
/// resolution, and one that is not automatic not by automatic resolution.
pub proof fn law_other_kinds_pass_through(value: Value, base: Real, origin: Real, auto: Real)
    ensures
        !(value.kind is Percent) ==> value.by_pct(base, origin) == value,
        !(value.kind is Auto) ==> value.by_auto(auto) == value,
        value.kind is Literal ==> value.by_pct(base, origin).by_auto(auto) == value,
{
}

/// The bound that the children of a node give it is the least box that
/// holds the bound of every child: the lesser of their low edges and the
/// greater of their high edges.
pub proof fn law_inner_bound_is_least_cover(
    childs: Seq<NodeView>,
    bound: BoundingBox,
    text: Option<Text>,
    boxes: Seq<BoundingBox>,
    at: nat,
)
    requires
        childs.len() >= 1,
    ensures
        child_bounds(childs, bound, text, boxes, at).len() == childs.len(),
        least_cover(
            recalc_childs(childs, bound, text, boxes, at, childs.len()).bound,
            child_bounds(childs, bound, text, boxes, at),
        ),
{
    lemma_inner_bound_is_union(childs, bound, text, boxes, at, childs.len());
    law_union_is_least_cover(child_bounds(childs, bound, text, boxes, at));
}

/// Without children a node gets the zero box from them, whatever the
/// bound it hands down; no measurement is used.
pub proof fn law_inner_bound_without_children(
    childs: Seq<NodeView>,
    bound: BoundingBox,
    text: Option<Text>,
    boxes: Seq<BoundingBox>,
    at: nat,
)
    requires
        childs.len() == 0,
    ensures
        recalc_childs(childs, bound, text, boxes, at, childs.len()) == (Inner {
            childs: Seq::empty(),
            bound: BoundingBox::zero(),
            next: at,
        }),
        recalc_childs(childs, bound, text, boxes, at, childs.len()).bound.width() == 0,
        recalc_childs(childs, bound, text, boxes, at, childs.len()).bound.height() == 0,
{
}

/// The largest magnitude of a centre or radius for which the box of a
/// circle, and the union of two such boxes, are computed without
/// saturation.
pub const COVER_LIMIT: Real = 0x1fff_ffff_ffff_ffff;

/// Whether the circle's centre and radius are literals that lie within
/// [`COVER_LIMIT`].
pub open spec fn plain_circle(c: Circle) -> bool {
    &&& literal(c.cx) && literal(c.cy) && literal(c.r)
    &&& -COVER_LIMIT <= c.cx.val <= COVER_LIMIT
    &&& -COVER_LIMIT <= c.cy.val <= COVER_LIMIT
    &&& -COVER_LIMIT <= c.r.val <= COVER_LIMIT
}

/// A childless node with the given shape.
pub open spec fn leaf(shape: Shape) -> NodeView {
    NodeView { shape, childs: Seq::empty(), id: None, modifier: None }
}

/// A rectangle whose corner and size are automatic, around two circles of
/// literal geometry, gets the union of the two circles' boxes as its
/// bound: the lesser of their low edges and the greater of their high
/// edges.
#[verifier::rlimit(50)]
pub proof fn law_auto_rect_covers_children(
    rect: Rect,
    one: Circle,
    other: Circle,
    parent: BoundingBox,
    text: Option<Text>,
    boxes: Seq<BoundingBox>,
    at: nat,
)
    requires
        rect.x.kind is Auto,
        rect.y.kind is Auto,
        rect.width.kind is Auto,
        rect.height.kind is Auto,
        plain_circle(one),
        plain_circle(other),
    ensures
        recalc(
            NodeView {
                shape: Shape::Rect(rect),
                childs: seq![leaf(Shape::Circle(one)), leaf(Shape::Circle(other))],
                id: None,
                modifier: None,
            },
            parent,
            text,
            boxes,
            at,
        ).bound == one.bound().union(other.bound()),
{
    let childs = seq![leaf(Shape::Circle(one)), leaf(Shape::Circle(other))];
    let pushed = rect.by_pct(parent).bound();
    let first = recalc(childs[0], pushed, text, boxes, at);
    assert(first.bound == one.bound() && first.next == at) by {
        assert(recalc_childs(childs[0].childs, one.by_pct(pushed).bound(), text, boxes, at, 0).bound
            == BoundingBox::zero());
    }
    let second = recalc(childs[1], pushed, text, boxes, at);
    assert(second.bound == other.bound() && second.next == at) by {
        assert(recalc_childs(
            childs[1].childs,
            other.by_pct(pushed).bound(),
            text,
            boxes,
            at,
            0,
        ).bound == BoundingBox::zero());
    }
    let none = recalc_childs(childs, pushed, text, boxes, at, 0);
    let single = recalc_childs(childs, pushed, text, boxes, at, 1);
    assert(single.bound == one.bound() && single.next == at);
    let both = recalc_childs(childs, pushed, text, boxes, at, 2);
    assert(both.bound == one.bound().union(other.bound()));
}

/// The largest magnitude of an edge for which the extent of a box is
/// computed without saturation.
pub const EXTENT_LIMIT: Real = 0x3fff_ffff_ffff_ffff;

/// Whether every edge of the box lies within [`EXTENT_LIMIT`].
pub open spec fn within_extent_limit(b: BoundingBox) -> bool {
    &&& -EXTENT_LIMIT <= b.min_x <= EXTENT_LIMIT
    &&& -EXTENT_LIMIT <= b.min_y <= EXTENT_LIMIT
    &&& -EXTENT_LIMIT <= b.max_x <= EXTENT_LIMIT
    &&& -EXTENT_LIMIT <= b.max_y <= EXTENT_LIMIT
}

/// A rectangle whose corner and size are automatic gets, around any
/// children, the least box that holds the bound of every child: the lesser
/// of their low edges and the greater of their high edges. The children
/// are laid out in the bound that the rectangle hands down.
pub proof fn law_auto_rect_is_least_cover(
    node: NodeView,
    rect: Rect,
    parent: BoundingBox,
    text: Option<Text>,
    boxes: Seq<BoundingBox>,
    at: nat,
)
    requires
        node.shape == Shape::Rect(rect),
        rect.x.kind is Auto,
        rect.y.kind is Auto,
        rect.width.kind is Auto,
        rect.height.kind is Auto,
        node.childs.len() >= 1,
        within_extent_limit(
            recalc_childs(
                node.childs,
                rect.by_pct(parent).bound(),
                text,
                boxes,
                at,
                node.childs.len(),
            ).bound,
        ),
    ensures
        recalc(node, parent, text, boxes, at).bound == recalc_childs(
            node.childs,
            rect.by_pct(parent).bound(),
            text,
            boxes,
            at,
            node.childs.len(),
        ).bound,
        least_cover(
            recalc(node, parent, text, boxes, at).bound,
            child_bounds(node.childs, rect.by_pct(parent).bound(), text, boxes, at),
        ),
{
    law_inner_bound_is_least_cover(node.childs, rect.by_pct(parent).bound(), text, boxes, at);
}

/// A rectangle of automatic size without children gets a box without
/// extent at its own corner, whatever the bound it is laid out in: at the
/// corner as resolved on the way down, or at zero on an axis whose
/// coordinate is automatic too.
pub proof fn law_auto_rect_without_children(
    rect: Rect,
    parent: BoundingBox,
    text: Option<Text>,
    boxes: Seq<BoundingBox>,
    at: nat,
)
    requires
        rect.width.kind is Auto,
        rect.height.kind is Auto,
    ensures
        ({
            let laid = recalc(leaf(Shape::Rect(rect)), parent, text, boxes, at);
            let x = if rect.x.kind is Auto {
                0
            } else {
                rect.x.by_pct(parent.width(), parent.min_x).val
            };
            let y = if rect.y.kind is Auto {
                0
            } else {
                rect.y.by_pct(parent.height(), parent.min_y).val
            };
            &&& laid.bound == (BoundingBox { min_x: x, min_y: y, max_x: x, max_y: y })
            &&& laid.bound.width() == 0
            &&& laid.bound.height() == 0
        }),
{
    let node = leaf(Shape::Rect(rect));
    let pushed = rect.by_pct(parent);
    assert(recalc_childs(node.childs, pushed.bound(), text, boxes, at, 0).bound
        == BoundingBox::zero());
}

/// A circle of automatic radius without children gets a box without
/// extent at its own centre.
pub proof fn law_auto_circle_without_children(
    circle: Circle,
    parent: BoundingBox,
    text: Option<Text>,
    boxes: Seq<BoundingBox>,
    at: nat,
)
    requires
        circle.r.kind is Auto,
    ensures
        ({
            let laid = recalc(leaf(Shape::Circle(circle)), parent, text, boxes, at);
            let cx = if circle.cx.kind is Auto {
                0
            } else {
                circle.cx.by_pct(parent.width(), parent.min_x).val
            };
            let cy = if circle.cy.kind is Auto {
                0
            } else {
                circle.cy.by_pct(parent.height(), parent.min_y).val
            };
            &&& laid.bound == (BoundingBox { min_x: cx, min_y: cy, max_x: cx, max_y: cy })
            &&& laid.bound.width() == 0
            &&& laid.bound.height() == 0
        }),
{
    let node = leaf(Shape::Circle(circle));
    let pushed = circle.by_pct(parent);
    assert(recalc_childs(node.childs, pushed.bound(), text, boxes, at, 0).bound
        == BoundingBox::zero());
}

/// Whether two fields are declared alike: of the same kind, and with the
/// same number where the number is a literal.
pub open spec fn alike(one: Value, other: Value) -> bool {
    &&& one.kind == other.kind
    &&& one.kind is Literal ==> one.val == other.val
}

/// Whether two shapes are declared alike: the same but for the numbers in
/// force of their percentage and automatic fields.
pub open spec fn shapes_alike(one: Shape, other: Shape) -> bool {
    match (one, other) {
        (Shape::Rect(r), Shape::Rect(s)) => {
            &&& alike(r.x, s.x) && alike(r.y, s.y)
            &&& alike(r.width, s.width) && alike(r.height, s.height)
            &&& r.fill == s.fill && r.stroke == s.stroke && r.transform == s.transform
        },
        (Shape::Circle(c), Shape::Circle(d)) => {
            &&& alike(c.cx, d.cx) && alike(c.cy, d.cy) && alike(c.r, d.r)
            &&& c.fill == d.fill && c.stroke == d.stroke && c.transform == d.transform
        },
        (Shape::Text(t), Shape::Text(u)) => {
            &&& alike(t.x, u.x) && alike(t.y, u.y)
            &&& t.font_name == u.font_name && t.font_size == u.font_size && t.align == u.align
            &&& t.fill == u.fill && t.transform == u.transform
        },
        _ => one == other,
    }
}

/// Whether two trees are declared alike: node for node the same names,
/// modifiers and number of children, and shapes that are declared alike.
pub open spec fn trees_alike(one: NodeView, other: NodeView) -> bool
    decreases one,
{
    &&& one.id == other.id
    &&& one.modifier == other.modifier
    &&& shapes_alike(one.shape, other.shape)
    &&& one.childs.len() == other.childs.len()
    &&& forall|i: int|
        0 <= i < one.childs.len() ==> trees_alike(#[trigger] one.childs[i], other.childs[i])
}

/// Layout rewrites the numbers in force and nothing else: the tree keeps
/// its structure, its names and modifiers, its paints and outlines, and the
/// kind of every field, so that the next pass resolves the same
/// declarations anew.
pub proof fn law_layout_keeps_declarations(
    node: NodeView,
    parent: BoundingBox,
    text: Option<Text>,
    boxes: Seq<BoundingBox>,
    at: nat,
)
    ensures
        trees_alike(node, recalc(node, parent, text, boxes, at).node),
    decreases node, 1nat,
{
    match node.shape {
        Shape::Rect(r) => {
            lemma_childs_keep_declarations(node, r.by_pct(parent).bound(), text, boxes, at);
        },
        Shape::Circle(c) => {
            lemma_childs_keep_declarations(node, c.by_pct(parent).bound(), text, boxes, at);
        },
        Shape::Text(t) => {
            lemma_childs_keep_declarations(node, parent, Some(t.by_pct(parent)), boxes, at);
        },
        Shape::Word(_) => {
            match text {
                Some(t) => {
                    lemma_childs_keep_declarations(
                        node,
                        word_bound(t, boxes[at as int]),
                        text,
                        boxes,
                        at + 1,
                    );
                },
                None => {
                    lemma_childs_keep_declarations(node, parent, text, boxes, at);
                },
            }
        },
        _ => {
            lemma_childs_keep_declarations(node, parent, text, boxes, at);
        },
    }
}

/// The same for the children of a node.
pub proof fn lemma_childs_keep_declarations(
    node: NodeView,
    bound: BoundingBox,
    text: Option<Text>,
    boxes: Seq<BoundingBox>,
    at: nat,
)
    ensures
        recalc_childs(node.childs, bound, text, boxes, at, node.childs.len()).childs.len()
            == node.childs.len(),
        forall|i: int|
            0 <= i < node.childs.len() ==> trees_alike(
                #[trigger] node.childs[i],
                recalc_childs(node.childs, bound, text, boxes, at, node.childs.len()).childs[i],
            ),
    decreases node, 0nat,
{
    let childs = node.childs;
    let laid = recalc_childs(childs, bound, text, boxes, at, childs.len());
    lemma_recalc_childs_next(childs, bound, text, boxes, at, childs.len());
    assert forall|i: int| 0 <= i < childs.len() implies trees_alike(
        #[trigger] childs[i],
        laid.childs[i],
    ) by {
        lemma_recalc_childs_index(childs, bound, text, boxes, at, childs.len(), i);
        law_layout_keeps_declarations(
            childs[i],
            bound,
            text,
            boxes,
            recalc_childs(childs, bound, text, boxes, at, i as nat).next,
        );
    }
}

/// Layout leaves the outlines as they are: a tree that can be drawn
/// before layout can be drawn after it.
pub proof fn lemma_recalc_keeps_drawable(
    node: NodeView,
    parent: BoundingBox,
    text: Option<Text>,
    boxes: Seq<BoundingBox>,
    at: nat,
)
    requires
        drawable(node),
    ensures
        drawable(recalc(node, parent, text, boxes, at).node),
    decreases node, 0nat,
{
    let n = node.childs.len();
    let laid = recalc(node, parent, text, boxes, at).node;
    match node.shape {
        Shape::Rect(r) => {
            lemma_recalc_childs_keep_drawable(node.childs, r.by_pct(parent).bound(), text, boxes, at);
        },
        Shape::Circle(c) => {
            lemma_recalc_childs_keep_drawable(node.childs, c.by_pct(parent).bound(), text, boxes, at);
        },
        Shape::Text(t) => {
            lemma_recalc_childs_keep_drawable(node.childs, parent, Some(t.by_pct(parent)), boxes, at);
        },
        Shape::Word(_) => {
            match text {
                Some(t) => {
                    lemma_recalc_childs_keep_drawable(
                        node.childs,
                        word_bound(t, boxes[at as int]),
                        text,
                        boxes,
                        at + 1,
                    );
                },
                None => {
                    lemma_recalc_childs_keep_drawable(node.childs, parent, text, boxes, at);
                },
            }
        },
        _ => {
            lemma_recalc_childs_keep_drawable(node.childs, parent, text, boxes, at);
        },
    }
}

/// The same for all children of a node.
pub proof fn lemma_recalc_childs_keep_drawable(
    childs: Seq<NodeView>,
    bound: BoundingBox,
    text: Option<Text>,
    boxes: Seq<BoundingBox>,
    at: nat,
)
    requires
        forall|i: int| 0 <= i < childs.len() ==> drawable(#[trigger] childs[i]),
    ensures
        recalc_childs(childs, bound, text, boxes, at, childs.len()).childs.len() == childs.len(),
        forall|i: int|
            0 <= i < childs.len() ==> drawable(
                #[trigger] recalc_childs(childs, bound, text, boxes, at, childs.len()).childs[i],
            ),
    decreases childs, 0nat,
{
    let laid = recalc_childs(childs, bound, text, boxes, at, childs.len());
    lemma_recalc_childs_next(childs, bound, text, boxes, at, childs.len());
    assert forall|i: int| 0 <= i < childs.len() implies drawable(#[trigger] laid.childs[i]) by {
        lemma_recalc_childs_index(childs, bound, text, boxes, at, childs.len(), i);
        lemma_recalc_keeps_drawable(
            childs[i],
            bound,
            text,
            boxes,
            recalc_childs(childs, bound, text, boxes, at, i as nat).next,
        );
    }
}

/// The runs among a single operation: the operation itself, if it is a
/// text run.
pub proof fn lemma_measured_single(op: DrawOp)
    ensures
        measured(seq![op]) == match op {
            DrawOp::Text(run) => seq![as_measured(run)],
            _ => Seq::<TextRun>::empty(),
        },
{
    reveal_with_fuel(measured, 2);
    let ops = seq![op];
    assert(ops.drop_last().len() == 0);
    assert(ops.last() == op);
    assert(measured(ops) =~= match op {
        DrawOp::Text(run) => seq![as_measured(run)],
        _ => Seq::<TextRun>::empty(),
    });
}

/// The runs among two lists of operations, one after the other.
pub proof fn lemma_measured_concat(one: Seq<DrawOp>, other: Seq<DrawOp>)
    ensures
        measured(one + other) == measured(one) + measured(other),
    decreases other.len(),
{
    if other.len() == 0 {
        assert(one + other =~= one);
        assert(measured(one) + measured(other) =~= measured(one));
    } else {
        assert((one + other).drop_last() =~= one + other.drop_last());
        assert((one + other).last() == other.last());
        lemma_measured_concat(one, other.drop_last());
        assert(measured(one + other) =~= measured(one) + measured(other));
    }
}

/// An outline issues no text.
pub proof fn lemma_outline_has_no_text(cmds: Seq<PathCommand>, upto: nat)
    ensures
        measured(outline_ops(cmds, upto)) == Seq::<TextRun>::empty(),
    decreases upto,
{
    if !(upto == 0 || upto > cmds.len()) {
        let before = outline_ops(cmds, (upto - 1) as nat);
        lemma_outline_has_no_text(cmds, (upto - 1) as nat);
        match pen_after(cmds, (upto - 1) as nat).op(cmds[upto - 1]) {
            Some(op) => {
                assert(before.push(op).drop_last() =~= before);
            },
            None => {},
        }
    }
}

/// Painting an outline issues no text.
pub proof fn lemma_paint_has_no_text(fill: Option<Fill>, stroke: Option<Stroke>)
    ensures
        measured(paint_ops(fill, stroke)) == Seq::<TextRun>::empty(),
{
    let filled = match fill {
        Some(f) => seq![DrawOp::Fill(f.paint)],
        None => Seq::empty(),
    };
    let stroked = match stroke {
        Some(s) => seq![DrawOp::Stroke(s.paint, stroke_option(s))],
        None => Seq::empty(),
    };
    if let Some(f) = fill {
        lemma_measured_single(DrawOp::Fill(f.paint));
    }
    if let Some(s) = stroke {
        lemma_measured_single(DrawOp::Stroke(s.paint, stroke_option(s)));
    }
    lemma_measured_concat(filled, stroked);
}

/// Among the operations of a shape, only those of a text run in a
/// container hold text: that one run.
pub proof fn lemma_shape_runs(shape: Shape, text: Option<Text>)
    ensures
        measured(shape_ops(shape, text)) == match (shape, text) {
            (Shape::Word(content), Some(t)) => seq![measure_run(t, content)],
            _ => Seq::<TextRun>::empty(),
        },
{
    let end = seq![DrawOp::EndPath];
    lemma_measured_single(DrawOp::EndPath);
    match shape {
        Shape::Rect(r) => {
            let begin = DrawOp::BeginPath(path_options(r.transform));
            let body = DrawOp::Rect {
                x: r.x.val,
                y: r.y.val,
                width: r.width.val,
                height: r.height.val,
            };
            lemma_measured_single(begin);
            lemma_measured_single(body);
            lemma_measured_concat(seq![begin], seq![body]);
            assert(seq![begin, body] =~= seq![begin] + seq![body]);
            lemma_paint_has_no_text(r.fill, r.stroke);
            lemma_measured_concat(seq![begin, body], paint_ops(r.fill, r.stroke));
            lemma_measured_concat(seq![begin, body] + paint_ops(r.fill, r.stroke), end);
        },
        Shape::Circle(c) => {
            let begin = DrawOp::BeginPath(path_options(c.transform));
            let body = DrawOp::Circle { cx: c.cx.val, cy: c.cy.val, r: c.r.val };
            lemma_measured_single(begin);
            lemma_measured_single(body);
            lemma_measured_concat(seq![begin], seq![body]);
            assert(seq![begin, body] =~= seq![begin] + seq![body]);
            lemma_paint_has_no_text(c.fill, c.stroke);
            lemma_measured_concat(seq![begin, body], paint_ops(c.fill, c.stroke));
            lemma_measured_concat(seq![begin, body] + paint_ops(c.fill, c.stroke), end);
        },
        Shape::Path(p) => {
            let begin = seq![DrawOp::BeginPath(path_options(p.transform))];
            lemma_measured_single(DrawOp::BeginPath(path_options(p.transform)));
            let outline = outline_ops(p.cmd@, p.cmd@.len());
            lemma_outline_has_no_text(p.cmd@, p.cmd@.len());
            lemma_paint_has_no_text(p.fill, p.stroke);
            lemma_measured_concat(begin, outline);
            lemma_measured_concat(begin + outline, paint_ops(p.fill, p.stroke));
            lemma_measured_concat(begin + outline + paint_ops(p.fill, p.stroke), end);
        },
        Shape::Word(content) => {
            match text {
                Some(t) => {
                    lemma_measured_single(DrawOp::Text(text_run(t, content)));
                },
                None => {},
            }
        },
        _ => {},
    }
}

/// The operations of the first children of a node come from those
/// children only.
pub proof fn lemma_draw_ops_prefix(
    one: Seq<NodeView>,
    other: Seq<NodeView>,
    text: Option<Text>,
    upto: nat,
)
    requires
        upto <= one.len(),
        upto <= other.len(),
        forall|i: int| 0 <= i < upto ==> one[i] == other[i],
    ensures
        draw_ops_in(one, text, upto) == draw_ops_in(other, text, upto),
    decreases upto,
{
    if upto > 0 {
        lemma_draw_ops_prefix(one, other, text, (upto - 1) as nat);
    }
}

/// What is measured is what is drawn. Where the text runs are leaves, the
/// runs that [`runs`] lists for a tree are the runs that the tree draws
/// once it is laid out, in the same order, with the same font, anchor,
/// content and style, but for the alignment of centred runs.
pub proof fn law_runs_are_drawn(
    node: NodeView,
    parent: BoundingBox,
    text: Option<Text>,
    boxes: Seq<BoundingBox>,
    at: nat,
)
    requires
        words_are_leaves(node, text is Some),
    ensures
        measured(draw_ops(recalc(node, parent, text, boxes, at).node, text)) == runs(
            node,
            parent,
            text,
        ),
    decreases node, 0nat,
{
    let n = node.childs.len();
    let laid = recalc(node, parent, text, boxes, at).node;
    let below = text_below(laid.shape, text);
    lemma_shape_runs(laid.shape, text);
    lemma_measured_concat(
        shape_ops(laid.shape, text),
        draw_ops_in(laid.childs, below, laid.childs.len()),
    );
    match node.shape {
        Shape::Rect(r) => {
            let bound = r.by_pct(parent).bound();
            lemma_recalc_childs_next(node.childs, bound, text, boxes, at, n);
            lemma_child_runs_are_drawn(node.childs, bound, text, boxes, at, n);
        },
        Shape::Circle(c) => {
            let bound = c.by_pct(parent).bound();
            lemma_recalc_childs_next(node.childs, bound, text, boxes, at, n);
            lemma_child_runs_are_drawn(node.childs, bound, text, boxes, at, n);
        },
        Shape::Text(t) => {
            let placed = Some(t.by_pct(parent));
            lemma_recalc_childs_next(node.childs, parent, placed, boxes, at, n);
            lemma_child_runs_are_drawn(node.childs, parent, placed, boxes, at, n);
        },
        Shape::Word(_) => {
            match text {
                Some(t) => {
                    assert(laid.childs.len() == 0);
                },
                None => {
                    lemma_recalc_childs_next(node.childs, parent, text, boxes, at, n);
                    lemma_child_runs_are_drawn(node.childs, parent, text, boxes, at, n);
                },
            }
        },
        _ => {
            lemma_recalc_childs_next(node.childs, parent, text, boxes, at, n);
            lemma_child_runs_are_drawn(node.childs, parent, text, boxes, at, n);
        },
    }
}

/// The same for the first `upto` children of a node.
pub proof fn lemma_child_runs_are_drawn(
    childs: Seq<NodeView>,
    bound: BoundingBox,
    text: Option<Text>,
    boxes: Seq<BoundingBox>,
    at: nat,
    upto: nat,
)
    requires
        upto <= childs.len(),
        forall|i: int| 0 <= i < childs.len() ==> words_are_leaves(#[trigger] childs[i], text is Some),
    ensures
        measured(
            draw_ops_in(recalc_childs(childs, bound, text, boxes, at, upto).childs, text, upto),
        ) == runs_in(childs, bound, text, upto),
    decreases childs, upto,
{
    let laid = recalc_childs(childs, bound, text, boxes, at, upto);
    lemma_recalc_childs_next(childs, bound, text, boxes, at, upto);
    if upto > 0 {
        let before = recalc_childs(childs, bound, text, boxes, at, (upto - 1) as nat);
        lemma_recalc_childs_next(childs, bound, text, boxes, at, (upto - 1) as nat);
        lemma_child_runs_are_drawn(childs, bound, text, boxes, at, (upto - 1) as nat);
        lemma_draw_ops_prefix(laid.childs, before.childs, text, (upto - 1) as nat);
        law_runs_are_drawn(childs[upto - 1], bound, text, boxes, before.next);
        lemma_measured_concat(
            draw_ops_in(laid.childs, text, (upto - 1) as nat),
            draw_ops(laid.childs[upto - 1], text),
        );
    }
}

} // verus!
