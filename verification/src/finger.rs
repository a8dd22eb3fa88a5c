//! Addresses of nodes.
//!
//! A finger names a node by the way down to it from the top of a tree.
//! It is resolved against the tree as it is at the time of the lookup, in
//! a single descent: a step that finds no child ends the lookup with an
//! error, and no other child is tried.

use vstd::prelude::*;
use crate::shape::{Node, NodeView};

verus! {

/// The address of a node.
#[derive(Clone, Debug, PartialEq, Eq)]
pub enum Finger {
    /// The top of the tree.
    Root,
    /// The way down by the positions of the children to descend into.
    Location(Vec<usize>),
    /// The way down by the names of the children to descend into.
    Id(Vec<String>),
}

/// Why a finger addresses nothing.
#[derive(Clone, Copy, Debug, PartialEq, Eq)]
pub enum AddressingError {
    /// The step at `depth`, counted from zero, found no child.
    NotFound { depth: usize },
}

/// Whether the node goes by the name `name`.
pub open spec fn is_named(node: NodeView, name: Seq<char>) -> bool {
    node.id matches Some(id) && id@ == name
}

/// The position of the first of `childs`, from position `from` on, that
/// goes by the name `name`.
pub open spec fn first_named(childs: Seq<NodeView>, name: Seq<char>, from: nat) -> Option<nat>
    decreases childs.len() - from,
{
    if from >= childs.len() {
        None
    } else if is_named(childs[from as int], name) {
        Some(from)
    } else {
        first_named(childs, name, from + 1)
    }
}

/// The node that the positions `steps`, from step `from` on, lead to from
/// `node`.
pub open spec fn resolve_location(node: NodeView, steps: Seq<usize>, from: nat) -> Result<
    NodeView,
    AddressingError,
>
    decreases steps.len() - from,
{
    if from >= steps.len() {
        Ok(node)
    } else if steps[from as int] < node.childs.len() {
        resolve_location(node.childs[steps[from as int] as int], steps, from + 1)
    } else {
        Err(AddressingError::NotFound { depth: from as usize })
    }
}

/// The node that the names `steps`, from step `from` on, lead to from
/// `node`. A name leads to the first child that goes by it.
pub open spec fn resolve_id(node: NodeView, steps: Seq<String>, from: nat) -> Result<
    NodeView,
    AddressingError,
>
    decreases steps.len() - from,
{
    if from >= steps.len() {
        Ok(node)
    } else {
        match first_named(node.childs, steps[from as int]@, 0) {
            Some(index) => resolve_id(node.childs[index as int], steps, from + 1),
            None => Err(AddressingError::NotFound { depth: from as usize }),
        }
    }
}

/// The node that `finger` addresses in the tree `node`.
pub open spec fn resolve(node: NodeView, finger: Finger) -> Result<NodeView, AddressingError> {
    match finger {
        Finger::Root => Ok(node),
        Finger::Location(steps) => resolve_location(node, steps@, 0),
        Finger::Id(steps) => resolve_id(node, steps@, 0),
    }
}

/// A name that is found is found at a child that goes by it, and at none
/// before the position where the search began.
pub proof fn lemma_first_named(childs: Seq<NodeView>, name: Seq<char>, from: nat)
    ensures
        match first_named(childs, name, from) {
            Some(index) => {
                &&& from <= index < childs.len()
                &&& is_named(childs[index as int], name)
                &&& forall|i: int| from <= i < index ==> !is_named(#[trigger] childs[i], name)
            },
            None => forall|i: int| from <= i < childs.len() ==> !is_named(#[trigger] childs[i], name),
        },
    decreases childs.len() - from,
{
    if from < childs.len() && !is_named(childs[from as int], name) {
        lemma_first_named(childs, name, from + 1);
    }
}

impl Node {
    /// The position of the first child that goes by the name `name`.
    pub fn child_named(&self, name: &String) -> (found: Option<usize>)
        ensures
            match found {
                Some(index) => first_named(self@.childs, name@, 0) == Some(index as nat),
                None => first_named(self@.childs, name@, 0) is None,
            },
    {
        let n = self.childs.len();
        let mut i: usize = 0;
        while i < n
            invariant
                i <= n,
                n == self.childs@.len(),
                n == self@.childs.len(),
                first_named(self@.childs, name@, 0) == first_named(self@.childs, name@, i as nat),
            decreases n - i,
        {
            assert(self@.childs[i as int] == self.childs@[i as int]@);
            let hit = match &self.childs[i].id {
                Some(id) => *id == *name,
                None => false,
            };
            if hit {
                return Some(i);
            }
            i = i + 1;
        }
        None
    }

    /// The node that `finger` addresses in this tree.
    pub fn resolve(&self, finger: &Finger) -> (found: Result<&Node, AddressingError>)
        ensures
            match found {
                Ok(node) => resolve(self@, *finger) == Ok::<NodeView, AddressingError>(node@),
                Err(error) => resolve(self@, *finger) == Err::<NodeView, AddressingError>(error),
            },
    {
        let mut node: &Node = self;
        match finger {
            Finger::Root => {},
            Finger::Location(steps) => {
                let n = steps.len();
                let mut i: usize = 0;
                while i < n
                    invariant
                        i <= n,
                        n == steps@.len(),
                        resolve(self@, *finger) == resolve_location(self@, steps@, 0),
                        resolve_location(self@, steps@, 0) == resolve_location(
                            node@,
                            steps@,
                            i as nat,
                        ),
                    decreases n - i,
                {
                    let step = steps[i];
                    if step >= node.childs.len() {
                        return Err(AddressingError::NotFound { depth: i });
                    }
                    assert(node@.childs[step as int] == node.childs@[step as int]@);
                    node = &node.childs[step];
                    i = i + 1;
                }
            },
            Finger::Id(steps) => {
                let n = steps.len();
                let mut i: usize = 0;
                while i < n
                    invariant
                        i <= n,
                        n == steps@.len(),
                        resolve(self@, *finger) == resolve_id(self@, steps@, 0),
                        resolve_id(self@, steps@, 0) == resolve_id(node@, steps@, i as nat),
                    decreases n - i,
                {
                    match node.child_named(&steps[i]) {
                        Some(index) => {
                            proof {
                                lemma_first_named(node@.childs, steps@[i as int]@, 0);
                            }
                            assert(node@.childs[index as int] == node.childs@[index as int]@);
                            node = &node.childs[index];
                        },
                        None => {
                            return Err(AddressingError::NotFound { depth: i });
                        },
                    }
                    i = i + 1;
                }
            },
        }
        Ok(node)
    }
}

/// The root finger addresses the top of every tree.
pub proof fn law_root_is_top(node: NodeView)
    ensures
        resolve(node, Finger::Root) == Ok::<NodeView, AddressingError>(node),
{
}

/// A name that no child of the node at hand goes by ends the lookup with
/// an error at that step, whatever steps follow.
pub proof fn law_unmatched_name_fails(node: NodeView, steps: Seq<String>, from: nat)
    requires
        from < steps.len(),
        forall|i: int| 0 <= i < node.childs.len() ==> !is_named(#[trigger] node.childs[i], steps[from as int]@),
    ensures
        resolve_id(node, steps, from) == Err::<NodeView, AddressingError>(
            AddressingError::NotFound { depth: from as usize },
        ),
{
    lemma_first_named(node.childs, steps[from as int]@, 0);
}

/// A position beyond the children of the node at hand ends the lookup
/// with an error at that step, whatever steps follow.
pub proof fn law_unmatched_position_fails(node: NodeView, steps: Seq<usize>, from: nat)
    requires
        from < steps.len(),
        steps[from as int] >= node.childs.len(),
    ensures
        resolve_location(node, steps, from) == Err::<NodeView, AddressingError>(
            AddressingError::NotFound { depth: from as usize },
        ),
{
}

/// A lookup that succeeds took every step: each name led to a child that
/// goes by it, and the last of them is the node found.
pub proof fn law_found_by_name(node: NodeView, steps: Seq<String>, from: nat)
    requires
        from < steps.len(),
        resolve_id(node, steps, from) is Ok,
    ensures
        first_named(node.childs, steps[from as int]@, 0) matches Some(index) && index
            < node.childs.len() && is_named(node.childs[index as int], steps[from as int]@)
            && resolve_id(node, steps, from) == resolve_id(
            node.childs[index as int],
            steps,
            from + 1,
        ),
{
    lemma_first_named(node.childs, steps[from as int]@, 0);
}

} // verus!
