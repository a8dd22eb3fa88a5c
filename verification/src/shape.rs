//! Shapes and the trees they form.

use vstd::prelude::*;
use crate::fixed::Real;
use crate::paint::{Fill, Stroke, Transform};
use crate::value::Value;

verus! {

/// A rectangle by its corner and size.
#[derive(Clone, Copy, Debug, PartialEq, Eq)]
pub struct Rect {
    pub x: Value,
    pub y: Value,
    pub width: Value,
    pub height: Value,
    pub fill: Option<Fill>,
    pub stroke: Option<Stroke>,
    pub transform: Option<Transform>,
}

/// A circle by its centre and radius.
#[derive(Clone, Copy, Debug, PartialEq, Eq)]
pub struct Circle {
    pub cx: Value,
    pub cy: Value,
    pub r: Value,
    pub fill: Option<Fill>,
    pub stroke: Option<Stroke>,
    pub transform: Option<Transform>,
}

/// One step of an outline. A name that ends in `Rel` takes its
/// coordinates relative to the current point.
#[derive(Clone, Copy, Debug, PartialEq, Eq, Structural)]
pub enum PathCommand {
    Move(Real, Real),
    MoveRel(Real, Real),
    Line(Real, Real),
    LineRel(Real, Real),
    LineAlonX(Real),
    LineAlonXRel(Real),
    LineAlonY(Real),
    LineAlonYRel(Real),
    Close,
    /// Sets the next control point of a curve.
    BezCtrl(Real, Real),
    BezCtrlRel(Real, Real),
    /// Asks for the mirror image of the last control point. No drawing
    /// rule exists for it.
    BezReflectCtrl,
    /// A quadratic curve to the point, bent by the latest control point.
    QuadBezTo(Real, Real),
    QuadBezToRel(Real, Real),
    /// A cubic curve to the point, bent by the two latest control points.
    CubBezTo(Real, Real),
    CubBezToRel(Real, Real),
}

impl PathCommand {
    /// Whether a drawing rule exists for the command.
    pub open spec fn spec_is_supported(&self) -> bool {
        !(self is BezReflectCtrl)
    }

    /// Whether a drawing rule exists for the command.
    #[verifier::when_used_as_spec(spec_is_supported)]
    pub fn is_supported(&self) -> (b: bool)
        ensures
            b == self.spec_is_supported(),
    {
        match self {
            PathCommand::BezReflectCtrl => false,
            _ => true,
        }
    }
}

/// An outline made of commands.
#[derive(Clone, Debug, PartialEq, Eq)]
pub struct Path {
    pub cmd: Vec<PathCommand>,
    pub fill: Option<Fill>,
    pub stroke: Option<Stroke>,
    pub transform: Option<Transform>,
}

/// Horizontal placement of text relative to its anchor.
#[derive(Clone, Copy, Debug, PartialEq, Eq, Structural)]
pub enum AlignHor {
    Left,
    Right,
    Center,
}

/// Vertical placement of text relative to its anchor.
#[derive(Clone, Copy, Debug, PartialEq, Eq, Structural)]
pub enum AlignVer {
    Bottom,
    Middle,
    Baseline,
    Top,
}

/// Placement of text relative to its anchor, on both axes.
#[derive(Clone, Copy, Debug, PartialEq, Eq, Structural)]
pub struct Align {
    pub hor: AlignHor,
    pub ver: AlignVer,
}

/// A text container: the anchor, font, alignment and fill of the words
/// below it.
#[derive(Clone, Debug, PartialEq, Eq)]
pub struct Text {
    pub x: Value,
    pub y: Value,
    pub font_name: String,
    pub font_size: Value,
    pub align: Align,
    pub fill: Option<Fill>,
    pub transform: Option<Transform>,
}

impl Text {
    /// A copy of the container.
    pub fn duplicate(&self) -> (t: Text)
        ensures
            t == *self,
    {
        Text {
            x: self.x,
            y: self.y,
            font_name: self.font_name.clone(),
            font_size: self.font_size,
            align: self.align,
            fill: self.fill,
            transform: self.transform,
        }
    }
}

/// The closed set of shapes.
#[derive(Clone, Debug, PartialEq, Eq)]
pub enum Shape {
    /// A container that draws nothing itself.
    Group,
    Rect(Rect),
    Circle(Circle),
    Path(Path),
    Text(Text),
    /// A run of text. Its extent is known only to the drawing backend.
    Word(String),
}

/// A shape with the nodes below it.
#[derive(Debug, PartialEq, Eq)]
pub struct Node {
    pub shape: Shape,
    pub childs: Vec<Node>,
    /// The name by which the node is addressed among its siblings.
    pub id: Option<String>,
    /// The key of the modifier that the node registered with its
    /// component, if it registered one.
    pub modifier: Option<usize>,
}

impl Node {
    /// A node with the given shape and children, without a name and
    /// without a modifier.
    pub fn new(shape: Shape, childs: Vec<Node>) -> (node: Node)
        ensures
            node == (Node { shape, childs, id: None, modifier: None }),
    {
        Node { shape, childs, id: None, modifier: None }
    }

    /// A node with the given shape and nothing else.
    pub fn leaf(shape: Shape) -> (node: Node)
        ensures
            node@ == (NodeView { shape, childs: Seq::empty(), id: None, modifier: None }),
    {
        let node = Node { shape, childs: Vec::new(), id: None, modifier: None };
        assert(node@.childs =~= Seq::empty());
        node
    }

    /// The same node under the name `id`.
    pub fn with_id(self, id: String) -> (node: Node)
        ensures
            node == (Node { id: Some(id), ..self }),
    {
        Node { shape: self.shape, childs: self.childs, id: Some(id), modifier: self.modifier }
    }

    /// The same node with the modifier registered under `key`.
    pub fn with_modifier(self, key: usize) -> (node: Node)
        ensures
            node == (Node { modifier: Some(key), ..self }),
    {
        Node { shape: self.shape, childs: self.childs, id: self.id, modifier: Some(key) }
    }
}

/// The mathematical model of a [`Node`].
pub struct NodeView {
    pub shape: Shape,
    pub childs: Seq<NodeView>,
    pub id: Option<String>,
    pub modifier: Option<usize>,
}

/// The model of a node: the node with the models of its children, in
/// order, in place of the children.
pub open spec fn node_view(node: Node) -> NodeView
    decreases node,
{
    NodeView {
        shape: node.shape,
        childs: Seq::new(
            node.childs@.len(),
            |i: int|
                if 0 <= i < node.childs@.len() {
                    node_view(node.childs@[i])
                } else {
                    arbitrary()
                },
        ),
        id: node.id,
        modifier: node.modifier,
    }
}

impl View for Node {
    type V = NodeView;

    open spec fn view(&self) -> NodeView {
        node_view(*self)
    }
}

} // verus!
