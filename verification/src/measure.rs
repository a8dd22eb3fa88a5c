//! The measuring rules: which text runs the backend has to measure before
//! a tree can be laid out, and with which anchor and style.

use vstd::prelude::*;
use crate::bounds::BoundingBox;
use crate::draw::{text_options, text_run};
use crate::frame::{DrawOp, TextOptions, TextRun};
use crate::layout::{words, words_in};
use crate::shape::{Align, AlignHor, Node, NodeView, Shape, Text};

verus! {

/// The style under which a run of the container `text` is measured: the
/// style it is drawn with, but for centred text, which is measured as if
/// it were aligned to the left.
pub open spec fn measure_options(text: Text) -> TextOptions {
    let drawn = text_options(text);
    if text.align.hor is Center {
        TextOptions { align: Align { hor: AlignHor::Left, ver: text.align.ver }, ..drawn }
    } else {
        drawn
    }
}

/// The run that the backend measures for `content` under `text`.
pub open spec fn measure_run(text: Text, content: String) -> TextRun {
    TextRun { options: measure_options(text), ..text_run(text, content) }
}

/// The run as it is measured: with centred text aligned to the left.
pub open spec fn as_measured(run: TextRun) -> TextRun {
    if run.options.align.hor is Center {
        TextRun {
            options: TextOptions {
                align: Align { hor: AlignHor::Left, ver: run.options.align.ver },
                ..run.options
            },
            ..run
        }
    } else {
        run
    }
}

/// The text runs among the operations, in order, each as it is measured.
pub open spec fn measured(ops: Seq<DrawOp>) -> Seq<TextRun>
    decreases ops.len(),
{
    if ops.len() == 0 {
        Seq::empty()
    } else {
        match ops.last() {
            DrawOp::Text(run) => measured(ops.drop_last()).push(as_measured(run)),
            _ => measured(ops.drop_last()),
        }
    }
}

/// Whether every text run that lies in a text container is a leaf.
/// `in_text` says whether a container encloses `node`.
pub open spec fn words_are_leaves(node: NodeView, in_text: bool) -> bool
    decreases node,
{
    &&& node.shape is Word && in_text ==> node.childs.len() == 0
    &&& forall|i: int|
        0 <= i < node.childs.len() ==> words_are_leaves(
            #[trigger] node.childs[i],
            in_text || node.shape is Text,
        )
}

/// The text runs of `node` that need measuring, in tree order, when the
/// node is laid out in `parent` under the container `text`. Each run is
/// anchored where layout places its container.
pub open spec fn runs(node: NodeView, parent: BoundingBox, text: Option<Text>) -> Seq<TextRun>
    decreases node, 0nat,
{
    let n = node.childs.len();
    match node.shape {
        Shape::Rect(r) => runs_in(node.childs, r.by_pct(parent).bound(), text, n),
        Shape::Circle(c) => runs_in(node.childs, c.by_pct(parent).bound(), text, n),
        Shape::Text(t) => runs_in(node.childs, parent, Some(t.by_pct(parent)), n),
        Shape::Word(content) => match text {
            Some(t) => seq![measure_run(t, content)],
            None => runs_in(node.childs, parent, text, n),
        },
        _ => runs_in(node.childs, parent, text, n),
    }
}

/// The text runs of the first `upto` of `childs` that need measuring.
pub open spec fn runs_in(
    childs: Seq<NodeView>,
    bound: BoundingBox,
    text: Option<Text>,
    upto: nat,
) -> Seq<TextRun>
    decreases childs, upto,
{
    if upto == 0 || upto > childs.len() {
        Seq::empty()
    } else {
        runs_in(childs, bound, text, (upto - 1) as nat) + runs(childs[upto - 1], bound, text)
    }
}

/// Where the text runs are leaves, there is one run to measure for each
/// measurement that layout uses.
pub proof fn lemma_runs_len(node: NodeView, parent: BoundingBox, text: Option<Text>)
    requires
        words_are_leaves(node, text is Some),
    ensures
        runs(node, parent, text).len() == words(node, text is Some),
    decreases node, 0nat,
{
    let n = node.childs.len();
    match node.shape {
        Shape::Rect(r) => {
            lemma_runs_in_len(node.childs, r.by_pct(parent).bound(), text, n);
        },
        Shape::Circle(c) => {
            lemma_runs_in_len(node.childs, c.by_pct(parent).bound(), text, n);
        },
        Shape::Text(t) => {
            lemma_runs_in_len(node.childs, parent, Some(t.by_pct(parent)), n);
        },
        Shape::Word(_) => {
            if text is None {
                lemma_runs_in_len(node.childs, parent, text, n);
            }
        },
        _ => {
            lemma_runs_in_len(node.childs, parent, text, n);
        },
    }
}

/// The same for the first `upto` children of a node.
pub proof fn lemma_runs_in_len(
    childs: Seq<NodeView>,
    bound: BoundingBox,
    text: Option<Text>,
    upto: nat,
)
    requires
        upto <= childs.len(),
        forall|i: int| 0 <= i < childs.len() ==> words_are_leaves(#[trigger] childs[i], text is Some),
    ensures
        runs_in(childs, bound, text, upto).len() == words_in(childs, text is Some, upto),
    decreases childs, upto,
{
    if upto > 0 {
        lemma_runs_in_len(childs, bound, text, (upto - 1) as nat);
        lemma_runs_len(childs[upto - 1], bound, text);
    }
}

impl Node {
    /// Whether every text run that lies in a text container is a leaf.
    /// `in_text` says whether a container encloses the node.
    pub fn has_leaf_words(&self, in_text: bool) -> (b: bool)
        ensures
            b == words_are_leaves(self@, in_text),
        decreases self,
    {
        let n = self.childs.len();
        let is_word = match &self.shape {
            Shape::Word(_) => true,
            _ => false,
        };
        if is_word && in_text && n != 0 {
            return false;
        }
        let below = match &self.shape {
            Shape::Text(_) => true,
            _ => in_text,
        };
        let mut i: usize = 0;
        while i < n
            invariant
                i <= n,
                n == self.childs@.len(),
                below == (in_text || self.shape is Text),
                forall|j: int| 0 <= j < i ==> words_are_leaves(#[trigger] self@.childs[j], below),
            decreases n - i,
        {
            assert(self@.childs[i as int] == self.childs@[i as int]@);
            if !self.childs[i].has_leaf_words(below) {
                return false;
            }
            i = i + 1;
        }
        true
    }
}

} // verus!
