//! Axis-aligned bounding boxes.

use vstd::prelude::*;
use crate::fixed::{greater, lesser, minus, plus, Real};

verus! {

/// An axis-aligned box, given by its low and high corners.
#[derive(Clone, Copy, Debug, PartialEq, Eq, Structural)]
pub struct BoundingBox {
    pub min_x: Real,
    pub min_y: Real,
    pub max_x: Real,
    pub max_y: Real,
}

impl BoundingBox {
    /// The horizontal extent.
    pub open spec fn spec_width(&self) -> Real {
        minus(self.max_x, self.min_x)
    }

    /// The vertical extent.
    pub open spec fn spec_height(&self) -> Real {
        minus(self.max_y, self.min_y)
    }

    /// The box with all four edges at zero.
    pub open spec fn zero() -> BoundingBox {
        BoundingBox { min_x: 0, min_y: 0, max_x: 0, max_y: 0 }
    }

    /// The box of a rectangle with corner `(x, y)` and the given size.
    pub open spec fn of_rect(x: Real, y: Real, width: Real, height: Real) -> BoundingBox {
        BoundingBox { min_x: x, min_y: y, max_x: plus(x, width), max_y: plus(y, height) }
    }

    /// The box of a circle with centre `(cx, cy)` and radius `r`.
    pub open spec fn of_circle(cx: Real, cy: Real, r: Real) -> BoundingBox {
        BoundingBox {
            min_x: minus(cx, r),
            min_y: minus(cy, r),
            max_x: plus(cx, r),
            max_y: plus(cy, r),
        }
    }

    /// Whether no edge of `inner` lies outside this box.
    pub open spec fn holds(self, inner: BoundingBox) -> bool {
        &&& self.min_x <= inner.min_x
        &&& self.min_y <= inner.min_y
        &&& self.max_x >= inner.max_x
        &&& self.max_y >= inner.max_y
    }

    /// The smallest box that holds both boxes: the lesser of the low
    /// edges and the greater of the high edges.
    pub open spec fn spec_union(self, other: BoundingBox) -> BoundingBox {
        BoundingBox {
            min_x: lesser(self.min_x, other.min_x),
            min_y: lesser(self.min_y, other.min_y),
            max_x: greater(self.max_x, other.max_x),
            max_y: greater(self.max_y, other.max_y),
        }
    }

    /// The horizontal extent.
    #[verifier::when_used_as_spec(spec_width)]
    pub fn width(&self) -> (w: Real)
        ensures
            w == self.spec_width(),
    {
        minus(self.max_x, self.min_x)
    }

    /// The vertical extent.
    #[verifier::when_used_as_spec(spec_height)]
    pub fn height(&self) -> (h: Real)
        ensures
            h == self.spec_height(),
    {
        minus(self.max_y, self.min_y)
    }

    /// The box of a rectangle with corner `(x, y)` and the given size.
    pub fn around_rect(x: Real, y: Real, width: Real, height: Real) -> (b: BoundingBox)
        ensures
            b == BoundingBox::of_rect(x, y, width, height),
    {
        BoundingBox { min_x: x, min_y: y, max_x: plus(x, width), max_y: plus(y, height) }
    }

    /// The box of a circle with centre `(cx, cy)` and radius `r`.
    pub fn around_circle(cx: Real, cy: Real, r: Real) -> (b: BoundingBox)
        ensures
            b == BoundingBox::of_circle(cx, cy, r),
    {
        BoundingBox {
            min_x: minus(cx, r),
            min_y: minus(cy, r),
            max_x: plus(cx, r),
            max_y: plus(cy, r),
        }
    }

    /// The smallest box that holds both boxes.
    #[verifier::when_used_as_spec(spec_union)]
    pub fn union(self, other: BoundingBox) -> (u: BoundingBox)
        ensures
            u == self.spec_union(other),
    {
        BoundingBox {
            min_x: lesser(self.min_x, other.min_x),
            min_y: lesser(self.min_y, other.min_y),
            max_x: greater(self.max_x, other.max_x),
            max_y: greater(self.max_y, other.max_y),
        }
    }
}

impl Default for BoundingBox {
    /// The box with all four edges at zero.
    fn default() -> (b: BoundingBox)
        ensures
            b == BoundingBox::zero(),
    {
        BoundingBox { min_x: 0, min_y: 0, max_x: 0, max_y: 0 }
    }
}

/// The union of the first `upto` of `boxes`: the first of them united
/// with each of the others in turn, and the zero box where there is none.
pub open spec fn union_of(boxes: Seq<BoundingBox>, upto: nat) -> BoundingBox
    decreases upto,
{
    if upto == 0 || upto > boxes.len() {
        BoundingBox::zero()
    } else if upto == 1 {
        boxes[0]
    } else {
        union_of(boxes, (upto - 1) as nat).union(boxes[upto - 1])
    }
}

/// Whether `cover` is the least box that holds every one of `boxes`: it
/// holds each of them, each of its edges is the edge of one of them, and
/// every box that holds them all holds it too.
pub open spec fn least_cover(cover: BoundingBox, boxes: Seq<BoundingBox>) -> bool {
    &&& forall|i: int| 0 <= i < boxes.len() ==> cover.holds(#[trigger] boxes[i])
    &&& exists|i: int| 0 <= i < boxes.len() && cover.min_x == (#[trigger] boxes[i]).min_x
    &&& exists|i: int| 0 <= i < boxes.len() && cover.min_y == (#[trigger] boxes[i]).min_y
    &&& exists|i: int| 0 <= i < boxes.len() && cover.max_x == (#[trigger] boxes[i]).max_x
    &&& exists|i: int| 0 <= i < boxes.len() && cover.max_y == (#[trigger] boxes[i]).max_y
    &&& forall|other: BoundingBox|
        (forall|i: int| 0 <= i < boxes.len() ==> other.holds(#[trigger] boxes[i]))
            ==> #[trigger] other.holds(cover)
}

/// The union of one or more boxes is the least box that holds them all.
pub proof fn law_union_is_least_cover(boxes: Seq<BoundingBox>)
    requires
        boxes.len() >= 1,
    ensures
        least_cover(union_of(boxes, boxes.len()), boxes),
{
    law_union_of_is_least_cover(boxes, boxes.len());
}

/// The same for the first `upto` of the boxes.
pub proof fn law_union_of_is_least_cover(boxes: Seq<BoundingBox>, upto: nat)
    requires
        1 <= upto <= boxes.len(),
    ensures
        forall|i: int| 0 <= i < upto ==> union_of(boxes, upto).holds(#[trigger] boxes[i]),
        exists|i: int| 0 <= i < upto && union_of(boxes, upto).min_x == (#[trigger] boxes[i]).min_x,
        exists|i: int| 0 <= i < upto && union_of(boxes, upto).min_y == (#[trigger] boxes[i]).min_y,
        exists|i: int| 0 <= i < upto && union_of(boxes, upto).max_x == (#[trigger] boxes[i]).max_x,
        exists|i: int| 0 <= i < upto && union_of(boxes, upto).max_y == (#[trigger] boxes[i]).max_y,
        forall|cover: BoundingBox|
            (forall|i: int| 0 <= i < upto ==> cover.holds(#[trigger] boxes[i]))
                ==> #[trigger] cover.holds(union_of(boxes, upto)),
    decreases upto,
{
    let all = union_of(boxes, upto);
    let last = boxes[upto - 1];
    if upto == 1 {
        assert(all == boxes[0]);
    } else {
        let before = union_of(boxes, (upto - 1) as nat);
        law_union_of_is_least_cover(boxes, (upto - 1) as nat);
        assert(all == before.union(last));
        let x0 = choose|i: int| 0 <= i < upto - 1 && before.min_x == (#[trigger] boxes[i]).min_x;
        let y0 = choose|i: int| 0 <= i < upto - 1 && before.min_y == (#[trigger] boxes[i]).min_y;
        let x1 = choose|i: int| 0 <= i < upto - 1 && before.max_x == (#[trigger] boxes[i]).max_x;
        let y1 = choose|i: int| 0 <= i < upto - 1 && before.max_y == (#[trigger] boxes[i]).max_y;
        let wx0 = if last.min_x < before.min_x { upto - 1 } else { x0 };
        let wy0 = if last.min_y < before.min_y { upto - 1 } else { y0 };
        let wx1 = if last.max_x > before.max_x { upto - 1 } else { x1 };
        let wy1 = if last.max_y > before.max_y { upto - 1 } else { y1 };
        assert(all.min_x == boxes[wx0].min_x);
        assert(all.min_y == boxes[wy0].min_y);
        assert(all.max_x == boxes[wx1].max_x);
        assert(all.max_y == boxes[wy1].max_y);
        assert forall|cover: BoundingBox|
            (forall|i: int| 0 <= i < upto ==> cover.holds(#[trigger] boxes[i]))
                implies #[trigger] cover.holds(all) by {
            assert(cover.holds(boxes[upto - 1]));
            assert(cover.holds(before));
        }
    }
}

/// The union of boxes does not depend on their order or grouping, and a
/// box united with itself is that box.
pub proof fn law_union_is_a_semilattice(a: BoundingBox, b: BoundingBox, c: BoundingBox)
    ensures
        a.union(b) == b.union(a),
        a.union(b).union(c) == a.union(b.union(c)),
        a.union(a) == a,
{
}

/// The union holds both boxes: its low edges are not greater, its high
/// edges not less than theirs, and each of its edges is an edge of one of
/// the two.
pub proof fn law_union_covers(a: BoundingBox, b: BoundingBox)
    ensures
        a.union(b).min_x <= a.min_x && a.union(b).min_x <= b.min_x,
        a.union(b).min_y <= a.min_y && a.union(b).min_y <= b.min_y,
        a.union(b).max_x >= a.max_x && a.union(b).max_x >= b.max_x,
        a.union(b).max_y >= a.max_y && a.union(b).max_y >= b.max_y,
        a.union(b).min_x == a.min_x || a.union(b).min_x == b.min_x,
        a.union(b).min_y == a.min_y || a.union(b).min_y == b.min_y,
        a.union(b).max_x == a.max_x || a.union(b).max_x == b.max_x,
        a.union(b).max_y == a.max_y || a.union(b).max_y == b.max_y,
{
}

} // verus!
