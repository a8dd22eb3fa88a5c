//! The layout rules: how the geometry of a tree follows from the bound it
//! is laid out in and from the measured extents of its text runs.
//!
//! Layout descends with the bound of the enclosing node and resolves the
//! percentage fields against it; it comes back up with the union of the
//! children's bounds and resolves the automatic fields against that.

use vstd::prelude::*;
use crate::bounds::{union_of, BoundingBox};
use crate::fixed::{greater, half, lesser, minus, plus};
use crate::shape::{Circle, NodeView, Rect, Shape, Text};

verus! {

impl Rect {
    /// The rectangle with its percentage fields resolved against the
    /// enclosing bound: the corner relative to the bound's low corner, the
    /// size relative to the bound's size.
    pub open spec fn by_pct(self, parent: BoundingBox) -> Rect {
        Rect {
            x: self.x.by_pct(parent.width(), parent.min_x),
            y: self.y.by_pct(parent.height(), parent.min_y),
            width: self.width.by_pct(parent.width(), 0),
            height: self.height.by_pct(parent.height(), 0),
            ..self
        }
    }

    /// The rectangle with its automatic fields resolved against the union
    /// of its children's bounds: it takes that box's corner and size.
    pub open spec fn by_auto(self, inner: BoundingBox) -> Rect {
        Rect {
            x: self.x.by_auto(inner.min_x),
            y: self.y.by_auto(inner.min_y),
            width: self.width.by_auto(inner.width()),
            height: self.height.by_auto(inner.height()),
            ..self
        }
    }

    /// The box that the rectangle covers.
    pub open spec fn spec_bound(&self) -> BoundingBox {
        BoundingBox::of_rect(self.x.val, self.y.val, self.width.val, self.height.val)
    }

    /// Resolves the percentage fields against the enclosing bound.
    pub fn set_by_pct(&mut self, parent: BoundingBox)
        ensures
            *final(self) == old(self).by_pct(parent),
    {
        self.x.place_by_pct(parent.width(), parent.min_x);
        self.y.place_by_pct(parent.height(), parent.min_y);
        self.width.set_by_pct(parent.width());
        self.height.set_by_pct(parent.height());
    }

    /// Resolves the automatic fields against the union of the children's
    /// bounds.
    pub fn set_by_auto(&mut self, inner: BoundingBox)
        ensures
            *final(self) == old(self).by_auto(inner),
    {
        self.x.set_by_auto(inner.min_x);
        self.y.set_by_auto(inner.min_y);
        self.width.set_by_auto(inner.width());
        self.height.set_by_auto(inner.height());
    }

    /// The box that the rectangle covers.
    #[verifier::when_used_as_spec(spec_bound)]
    pub fn bound(&self) -> (b: BoundingBox)
        ensures
            b == self.spec_bound(),
    {
        BoundingBox::around_rect(self.x.val(), self.y.val(), self.width.val(), self.height.val())
    }
}

impl Circle {
    /// The circle with its percentage fields resolved against the
    /// enclosing bound: the centre relative to the bound's low corner, the
    /// radius relative to the lesser of the bound's dimensions.
    pub open spec fn by_pct(self, parent: BoundingBox) -> Circle {
        Circle {
            cx: self.cx.by_pct(parent.width(), parent.min_x),
            cy: self.cy.by_pct(parent.height(), parent.min_y),
            r: self.r.by_pct(lesser(parent.width(), parent.height()), 0),
            ..self
        }
    }

    /// The circle with its automatic fields resolved against the union of
    /// its children's bounds: the centre is that box's centre, the radius
    /// half of its greater dimension.
    pub open spec fn by_auto(self, inner: BoundingBox) -> Circle {
        Circle {
            cx: self.cx.by_auto(plus(inner.min_x, half(inner.width()))),
            cy: self.cy.by_auto(plus(inner.min_y, half(inner.height()))),
            r: self.r.by_auto(half(greater(inner.width(), inner.height()))),
            ..self
        }
    }

    /// The box that the circle covers.
    pub open spec fn spec_bound(&self) -> BoundingBox {
        BoundingBox::of_circle(self.cx.val, self.cy.val, self.r.val)
    }

    /// Resolves the percentage fields against the enclosing bound.
    pub fn set_by_pct(&mut self, parent: BoundingBox)
        ensures
            *final(self) == old(self).by_pct(parent),
    {
        self.cx.place_by_pct(parent.width(), parent.min_x);
        self.cy.place_by_pct(parent.height(), parent.min_y);
        self.r.set_by_pct(lesser(parent.width(), parent.height()));
    }

    /// Resolves the automatic fields against the union of the children's
    /// bounds.
    pub fn set_by_auto(&mut self, inner: BoundingBox)
        ensures
            *final(self) == old(self).by_auto(inner),
    {
        self.cx.set_by_auto(plus(inner.min_x, half(inner.width())));
        self.cy.set_by_auto(plus(inner.min_y, half(inner.height())));
        self.r.set_by_auto(half(greater(inner.width(), inner.height())));
    }

    /// The box that the circle covers.
    #[verifier::when_used_as_spec(spec_bound)]
    pub fn bound(&self) -> (b: BoundingBox)
        ensures
            b == self.spec_bound(),
    {
        BoundingBox::around_circle(self.cx.val(), self.cy.val(), self.r.val())
    }
}

impl Text {
    /// The container with its anchor resolved against the enclosing bound.
    pub open spec fn by_pct(self, parent: BoundingBox) -> Text {
        Text {
            x: self.x.by_pct(parent.width(), parent.min_x),
            y: self.y.by_pct(parent.height(), parent.min_y),
            ..self
        }
    }

    /// Resolves the anchor against the enclosing bound.
    pub fn set_by_pct(&mut self, parent: BoundingBox)
        ensures
            *final(self) == old(self).by_pct(parent),
    {
        self.x.place_by_pct(parent.width(), parent.min_x);
        self.y.place_by_pct(parent.height(), parent.min_y);
    }
}

/// The container that a reference stands for.
pub open spec fn text_of(text: Option<&Text>) -> Option<Text> {
    match text {
        Some(t) => Some(*t),
        None => None,
    }
}

/// The bound of a text run under the container `text`, from the extent
/// that the backend measured for it. The backend measures a centred run as
/// if it began at the anchor, so its extent is moved left by half its width.
pub open spec fn word_bound(text: Text, measured: BoundingBox) -> BoundingBox {
    if text.align.hor is Center {
        let shift = half(minus(measured.max_x, measured.min_x));
        BoundingBox {
            min_x: minus(measured.min_x, shift),
            max_x: minus(measured.max_x, shift),
            ..measured
        }
    } else {
        measured
    }
}

/// The outcome of laying out one node: the node with its geometry
/// resolved, its bound, and the index of the next unused measurement.
pub struct Recalc {
    pub node: NodeView,
    pub bound: BoundingBox,
    pub next: nat,
}

/// The outcome of laying out the first children of a node: those children
/// resolved, the union of their bounds (the zero box where there are
/// none), and the index of the next unused measurement.
pub struct Inner {
    pub childs: Seq<NodeView>,
    pub bound: BoundingBox,
    pub next: nat,
}

/// Lays out `node` in the bound `parent` of the enclosing node, under the
/// text container `text` if one encloses it. `boxes` holds the measured
/// extents of the text runs, of which those from index `at` on are unused.
pub open spec fn recalc(
    node: NodeView,
    parent: BoundingBox,
    text: Option<Text>,
    boxes: Seq<BoundingBox>,
    at: nat,
) -> Recalc
    decreases node, 0nat,
{
    let n = node.childs.len();
    match node.shape {
        Shape::Rect(r) => {
            let pushed = r.by_pct(parent);
            let inner = recalc_childs(node.childs, pushed.bound(), text, boxes, at, n);
            let settled = pushed.by_auto(inner.bound);
            Recalc {
                node: NodeView { shape: Shape::Rect(settled), childs: inner.childs, ..node },
                bound: settled.bound(),
                next: inner.next,
            }
        },
        Shape::Circle(c) => {
            let pushed = c.by_pct(parent);
            let inner = recalc_childs(node.childs, pushed.bound(), text, boxes, at, n);
            let settled = pushed.by_auto(inner.bound);
            Recalc {
                node: NodeView { shape: Shape::Circle(settled), childs: inner.childs, ..node },
                bound: settled.bound(),
                next: inner.next,
            }
        },
        Shape::Text(t) => {
            let placed = t.by_pct(parent);
            let inner = recalc_childs(node.childs, parent, Some(placed), boxes, at, n);
            Recalc {
                node: NodeView { shape: Shape::Text(placed), childs: inner.childs, ..node },
                bound: inner.bound,
                next: inner.next,
            }
        },
        Shape::Word(_) => {
            match text {
                Some(t) => {
                    let bound = word_bound(t, boxes[at as int]);
                    let inner = recalc_childs(node.childs, bound, text, boxes, at + 1, n);
                    Recalc {
                        node: NodeView { shape: node.shape, childs: inner.childs, ..node },
                        bound,
                        next: inner.next,
                    }
                },
                None => {
                    let inner = recalc_childs(node.childs, parent, text, boxes, at, n);
                    Recalc {
                        node: NodeView { shape: node.shape, childs: inner.childs, ..node },
                        bound: parent,
                        next: inner.next,
                    }
                },
            }
        },
        _ => {
            let inner = recalc_childs(node.childs, parent, text, boxes, at, n);
            Recalc {
                node: NodeView { shape: node.shape, childs: inner.childs, ..node },
                bound: parent,
                next: inner.next,
            }
        },
    }
}

/// Lays out the first `upto` of `childs`, one after the other, each in the
/// bound `bound`.
pub open spec fn recalc_childs(
    childs: Seq<NodeView>,
    bound: BoundingBox,
    text: Option<Text>,
    boxes: Seq<BoundingBox>,
    at: nat,
    upto: nat,
) -> Inner
    decreases childs, upto,
{
    if upto == 0 || upto > childs.len() {
        Inner { childs: Seq::empty(), bound: BoundingBox::zero(), next: at }
    } else {
        let before = recalc_childs(childs, bound, text, boxes, at, (upto - 1) as nat);
        let last = recalc(childs[upto - 1], bound, text, boxes, before.next);
        Inner {
            childs: before.childs.push(last.node),
            bound: if upto == 1 {
                last.bound
            } else {
                before.bound.union(last.bound)
            },
            next: last.next,
        }
    }
}

/// The outcome of laying out the child at `index`, as it comes about
/// when the children are laid out one after the other: from the first
/// measurement that the children before it left unused.
pub open spec fn child_recalc(
    childs: Seq<NodeView>,
    bound: BoundingBox,
    text: Option<Text>,
    boxes: Seq<BoundingBox>,
    at: nat,
    index: int,
) -> Recalc {
    recalc(
        childs[index],
        bound,
        text,
        boxes,
        recalc_childs(childs, bound, text, boxes, at, index as nat).next,
    )
}

/// The bounds of the children of a node, in order, as they come about when
/// the children are laid out one after the other.
pub open spec fn child_bounds(
    childs: Seq<NodeView>,
    bound: BoundingBox,
    text: Option<Text>,
    boxes: Seq<BoundingBox>,
    at: nat,
) -> Seq<BoundingBox> {
    Seq::new(childs.len(), |i: int| child_recalc(childs, bound, text, boxes, at, i).bound)
}

/// The number of measurements that the layout of `node` uses: one for each
/// text run that lies in a text container. `in_text` says whether a
/// container encloses `node`.
pub open spec fn words(node: NodeView, in_text: bool) -> nat
    decreases node, 0nat,
{
    let own: nat = if node.shape is Word && in_text {
        1
    } else {
        0
    };
    own + words_in(node.childs, in_text || node.shape is Text, node.childs.len())
}

/// The number of measurements that the layout of the first `upto` of
/// `childs` uses.
pub open spec fn words_in(childs: Seq<NodeView>, in_text: bool, upto: nat) -> nat
    decreases childs, upto,
{
    if upto == 0 || upto > childs.len() {
        0
    } else {
        words_in(childs, in_text, (upto - 1) as nat) + words(childs[upto - 1], in_text)
    }
}

/// Layout uses exactly the measurements of the node's text runs, and
/// keeps the number of children.
pub proof fn lemma_recalc_next(
    node: NodeView,
    parent: BoundingBox,
    text: Option<Text>,
    boxes: Seq<BoundingBox>,
    at: nat,
)
    ensures
        recalc(node, parent, text, boxes, at).next == at + words(node, text is Some),
        recalc(node, parent, text, boxes, at).node.childs.len() == node.childs.len(),
    decreases node, 0nat,
{
    let n = node.childs.len();
    match node.shape {
        Shape::Rect(r) => {
            lemma_recalc_childs_next(node.childs, r.by_pct(parent).bound(), text, boxes, at, n);
        },
        Shape::Circle(c) => {
            lemma_recalc_childs_next(node.childs, c.by_pct(parent).bound(), text, boxes, at, n);
        },
        Shape::Text(t) => {
            lemma_recalc_childs_next(node.childs, parent, Some(t.by_pct(parent)), boxes, at, n);
        },
        Shape::Word(_) => {
            match text {
                Some(t) => {
                    lemma_recalc_childs_next(
                        node.childs,
                        word_bound(t, boxes[at as int]),
                        text,
                        boxes,
                        at + 1,
                        n,
                    );
                },
                None => {
                    lemma_recalc_childs_next(node.childs, parent, text, boxes, at, n);
                },
            }
        },
        _ => {
            lemma_recalc_childs_next(node.childs, parent, text, boxes, at, n);
        },
    }
}

/// Layout of the first `upto` children uses exactly the measurements of
/// their text runs, and yields `upto` nodes.
pub proof fn lemma_recalc_childs_next(
    childs: Seq<NodeView>,
    bound: BoundingBox,
    text: Option<Text>,
    boxes: Seq<BoundingBox>,
    at: nat,
    upto: nat,
)
    requires
        upto <= childs.len(),
    ensures
        recalc_childs(childs, bound, text, boxes, at, upto).next == at + words_in(
            childs,
            text is Some,
            upto,
        ),
        recalc_childs(childs, bound, text, boxes, at, upto).childs.len() == upto,
    decreases childs, upto,
{
    if upto > 0 {
        let before = recalc_childs(childs, bound, text, boxes, at, (upto - 1) as nat);
        lemma_recalc_childs_next(childs, bound, text, boxes, at, (upto - 1) as nat);
        lemma_recalc_next(childs[upto - 1], bound, text, boxes, before.next);
    }
}

/// The count of measurements grows with the number of children counted.
pub proof fn lemma_words_in_monotonic(childs: Seq<NodeView>, in_text: bool, i: nat, j: nat)
    requires
        i <= j <= childs.len(),
    ensures
        words_in(childs, in_text, i) <= words_in(childs, in_text, j),
    decreases j,
{
    if i < j {
        lemma_words_in_monotonic(childs, in_text, i, (j - 1) as nat);
    }
}

/// The children come out of layout one by one: the child at `index` is
/// laid out in the same bound and under the same text container as its
/// siblings, from the first measurement that those before it left unused.
pub proof fn lemma_recalc_childs_index(
    childs: Seq<NodeView>,
    bound: BoundingBox,
    text: Option<Text>,
    boxes: Seq<BoundingBox>,
    at: nat,
    upto: nat,
    index: int,
)
    requires
        0 <= index < upto <= childs.len(),
    ensures
        recalc_childs(childs, bound, text, boxes, at, upto).childs.len() == upto,
        recalc_childs(childs, bound, text, boxes, at, upto).childs[index] == recalc(
            childs[index],
            bound,
            text,
            boxes,
            recalc_childs(childs, bound, text, boxes, at, index as nat).next,
        ).node,
    decreases upto,
{
    lemma_recalc_childs_next(childs, bound, text, boxes, at, upto);
    lemma_recalc_childs_next(childs, bound, text, boxes, at, (upto - 1) as nat);
    if index < upto - 1 {
        lemma_recalc_childs_index(childs, bound, text, boxes, at, (upto - 1) as nat, index);
    }
}

/// The layout of the first children of a node looks at those children
/// only.
pub proof fn lemma_recalc_childs_prefix(
    one: Seq<NodeView>,
    other: Seq<NodeView>,
    bound: BoundingBox,
    text: Option<Text>,
    boxes: Seq<BoundingBox>,
    at: nat,
    upto: nat,
)
    requires
        upto <= one.len(),
        upto <= other.len(),
        forall|i: int| 0 <= i < upto ==> one[i] == other[i],
    ensures
        recalc_childs(one, bound, text, boxes, at, upto) == recalc_childs(
            other,
            bound,
            text,
            boxes,
            at,
            upto,
        ),
    decreases upto,
{
    if upto > 0 {
        lemma_recalc_childs_prefix(one, other, bound, text, boxes, at, (upto - 1) as nat);
    }
}

/// The bound that the first `upto` children give their node is the union
/// of their bounds.
pub proof fn lemma_inner_bound_is_union(
    childs: Seq<NodeView>,
    bound: BoundingBox,
    text: Option<Text>,
    boxes: Seq<BoundingBox>,
    at: nat,
    upto: nat,
)
    requires
        upto <= childs.len(),
    ensures
        child_bounds(childs, bound, text, boxes, at).len() == childs.len(),
        recalc_childs(childs, bound, text, boxes, at, upto).bound == union_of(
            child_bounds(childs, bound, text, boxes, at),
            upto,
        ),
    decreases upto,
{
    if upto > 0 {
        lemma_inner_bound_is_union(childs, bound, text, boxes, at, (upto - 1) as nat);
        let each = child_bounds(childs, bound, text, boxes, at);
        assert(each[upto - 1] == child_recalc(childs, bound, text, boxes, at, upto - 1).bound);
        assert(each[0] == child_recalc(childs, bound, text, boxes, at, 0).bound);
    }
}

} // verus!
