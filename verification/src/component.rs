//! Components: application state that produces a tree, answers messages,
//! and says after each message what has become of its tree.

use vstd::prelude::*;
use vstd::std_specs::cmp::PartialEqSpec;
use crate::finger::{resolve, AddressingError, Finger};
use crate::shape::{Node, NodeView, Shape};

verus! {

/// What an update has done to the view.
#[derive(Clone, Copy, Debug, PartialEq, Eq, Structural)]
pub enum ChangeView {
    /// The state changed without any visible effect.
    Nothing,
    /// The tree keeps its structure; the registered modifiers bring its
    /// shapes up to date.
    Modify,
    /// The tree is produced anew.
    Rebuild,
}

/// A notification from the engine to every component.
#[derive(Clone, Copy, Debug, PartialEq, Eq, Structural)]
pub enum SystemMessage {
    /// A new frame begins.
    FrameChange,
}

/// Application state with a view.
///
/// An update changes the state and nothing else. A component that answers
/// an update with [`ChangeView::Modify`] promises that its view would have
/// the structure of the tree at hand; nothing checks that promise.
pub trait Component: Sized {
    type Message;

    type Properties;

    /// The initial state for the given properties.
    fn create(props: &Self::Properties) -> Self;

    /// Takes a message.
    fn update(&mut self, msg: Self::Message) -> ChangeView;

    /// Takes a message, with the tree as the last layout left it at hand.
    /// A component that does not look at the tree leaves this as it is:
    /// the message then goes to [`Component::update`], whose outcome and
    /// whose change of the state are those of this call.
    fn update_with_view(&mut self, view: Option<&Node>, msg: Self::Message) -> (change: ChangeView)
        default_ensures
            exists|handed: &mut Self|
                mut_ref_current(handed) == *old(self) && mut_ref_future(handed) == *final(self)
                    && #[trigger] call_ensures(Self::update, (handed, msg), change),
    {
        self.update(msg)
    }

    /// Turns a notification of the engine into a message of the
    /// component's own, or lets it pass. A component that leaves this as
    /// it is lets every notification pass and keeps its state.
    fn system_update(&mut self, msg: SystemMessage) -> (own: Option<Self::Message>)
        default_ensures
            own is None,
            *final(self) == *old(self),
    {
        None
    }

    /// The tree for the state at hand.
    fn view(&self) -> Node;

    /// Runs the modifier that a node registered under `key` on that node's
    /// shape, and returns the shape as the state at hand wants it.
    fn modify(&self, key: usize, shape: Shape) -> Shape;
}

/// Whether `after` is what the modifiers of `model` make of `before`: the
/// same tree, node for node, in which each node that registered a modifier
/// has the shape that the modifier returned for its shape, and every other
/// node its shape of before.
pub open spec fn modified<M: Component>(model: M, before: NodeView, after: NodeView) -> bool
    decreases before,
{
    &&& after.id == before.id
    &&& after.modifier == before.modifier
    &&& match before.modifier {
        Some(key) => call_ensures(M::modify, (&model, key, before.shape), after.shape),
        None => after.shape == before.shape,
    }
    &&& after.childs.len() == before.childs.len()
    &&& forall|i: int|
        0 <= i < before.childs.len() ==> modified(model, #[trigger] before.childs[i], after.childs[i])
}

/// Whether two trees have the same structure: as many children at every
/// node, under the same names.
pub open spec fn same_structure(one: NodeView, other: NodeView) -> bool
    decreases one,
{
    &&& one.id == other.id
    &&& one.childs.len() == other.childs.len()
    &&& forall|i: int|
        0 <= i < one.childs.len() ==> same_structure(#[trigger] one.childs[i], other.childs[i])
}

/// The number of nodes in a tree.
pub open spec fn size(node: NodeView) -> nat
    decreases node, 0nat,
{
    1 + size_in(node.childs, node.childs.len())
}

/// The number of nodes in the first `upto` of `childs`.
pub open spec fn size_in(childs: Seq<NodeView>, upto: nat) -> nat
    decreases childs, upto,
{
    if upto == 0 || upto > childs.len() {
        0
    } else {
        size_in(childs, (upto - 1) as nat) + size(childs[upto - 1])
    }
}

/// Runs the modifiers that the nodes of a tree registered, in tree order:
/// that of a node before those of its children, the children in order.
pub fn modify<M: Component>(model: &M, node: &mut Node)
    ensures
        modified(*model, old(node)@, final(node)@),
    decreases old(node).childs,
{
    if let Some(key) = node.modifier {
        let mut shape = Shape::Group;
        core::mem::swap(&mut node.shape, &mut shape);
        node.shape = model.modify(key, shape);
    }
    let n = node.childs.len();
    let mut i: usize = 0;
    while i < n
        invariant
            i <= n,
            n == node.childs@.len(),
            n == old(node).childs@.len(),
            node.id == old(node).id,
            node.modifier == old(node).modifier,
            match old(node).modifier {
                Some(key) => call_ensures(M::modify, (model, key, old(node).shape), node.shape),
                None => node.shape == old(node).shape,
            },
            forall|j: int| 0 <= j < i ==> modified(*model, old(node).childs@[j]@, node.childs@[j]@),
            forall|j: int| i <= j < n ==> node.childs@[j] == old(node).childs@[j],
        decreases n - i,
    {
        modify(model, &mut node.childs[i]);
        i = i + 1;
    }
    proof {
        assert forall|j: int| 0 <= j < old(node)@.childs.len() implies modified(
            *model,
            #[trigger] old(node)@.childs[j],
            node@.childs[j],
        ) by {
            assert(old(node)@.childs[j] == old(node).childs@[j]@);
            assert(node@.childs[j] == node.childs@[j]@);
        }
    }
}

/// The modifiers leave the structure of the tree alone: no node comes or
/// goes.
pub proof fn law_modify_keeps_structure<M: Component>(model: M, before: NodeView, after: NodeView)
    requires
        modified(model, before, after),
    ensures
        same_structure(before, after),
        size(after) == size(before),
    decreases before, 1nat,
{
    assert forall|i: int| 0 <= i < before.childs.len() implies same_structure(
        #[trigger] before.childs[i],
        after.childs[i],
    ) by {
        law_modify_keeps_structure(model, before.childs[i], after.childs[i]);
    }
    lemma_modify_keeps_size_in(model, before, after, before.childs.len());
}

/// The same for the number of nodes in the first `upto` children.
pub proof fn lemma_modify_keeps_size_in<M: Component>(
    model: M,
    before: NodeView,
    after: NodeView,
    upto: nat,
)
    requires
        modified(model, before, after),
        upto <= before.childs.len(),
    ensures
        size_in(after.childs, upto) == size_in(before.childs, upto),
    decreases before, 0nat, upto,
{
    if upto > 0 {
        lemma_modify_keeps_size_in(model, before, after, (upto - 1) as nat);
        law_modify_keeps_structure(model, before.childs[upto - 1], after.childs[upto - 1]);
    }
}

/// A node that registered no modifier, in a tree whose nodes registered
/// none, is left as it is.
pub proof fn law_modify_without_modifiers<M: Component>(model: M, before: NodeView, after: NodeView)
    requires
        modified(model, before, after),
        without_modifiers(before),
    ensures
        after == before,
    decreases before,
{
    assert forall|i: int| 0 <= i < before.childs.len() implies before.childs[i]
        == after.childs[i] by {
        law_modify_without_modifiers(model, before.childs[i], after.childs[i]);
    }
    assert(after.childs =~= before.childs);
}

/// Whether no node of the tree registered a modifier.
pub open spec fn without_modifiers(node: NodeView) -> bool
    decreases node,
{
    &&& node.modifier is None
    &&& forall|i: int| 0 <= i < node.childs.len() ==> without_modifiers(#[trigger] node.childs[i])
}

/// A component at work: its state, the properties it was created from,
/// and the tree that it produced last, if it has produced one.
pub struct Comp<M: Component> {
    pub model: M,
    pub props: M::Properties,
    pub view: Option<Node>,
}

/// Whether `after` is what the outcome `change` of an update makes of
/// `before`. The state and the properties stay. Without visible effect the
/// tree stays too; a modification runs the modifiers on the tree, if there
/// is one; a rebuild replaces the tree by the view of the state.
pub open spec fn applied<M: Component>(before: Comp<M>, change: ChangeView, after: Comp<M>) -> bool {
    &&& after.model == before.model
    &&& after.props == before.props
    &&& match change {
        ChangeView::Nothing => after.view == before.view,
        ChangeView::Modify => match (before.view, after.view) {
            (Some(old_view), Some(new_view)) => modified(before.model, old_view@, new_view@),
            (None, None) => true,
            _ => false,
        },
        ChangeView::Rebuild => after.view matches Some(new_view) && call_ensures(
            M::view,
            (&before.model,),
            new_view,
        ),
    }
}

/// The tree as an update gets it: by reference, if there is one.
pub open spec fn at_hand(view: &Option<Node>) -> Option<&Node> {
    match view {
        Some(node) => Some(node),
        None => None,
    }
}

/// Whether `comp` is a component as it is created for `props`: in the
/// initial state that the component makes of them, and without a tree.
pub open spec fn created<M: Component>(comp: Comp<M>, props: M::Properties) -> bool {
    &&& comp.props == props
    &&& comp.view is None
    &&& call_ensures(M::create, (&props,), comp.model)
}

impl<M: Component> Comp<M> {
    /// A component in its initial state for `props`, without a tree.
    pub fn new(props: M::Properties) -> (comp: Comp<M>)
        ensures
            created(comp, props),
    {
        let model = M::create(&props);
        Comp { model, props, view: None }
    }

    /// Mounts the component again under `props`, as happens when the tree
    /// around it is produced anew. Under equal properties the instance
    /// goes on, with its state and its tree; under other properties it is
    /// created afresh, without a tree.
    pub fn remount(self, props: M::Properties) -> (comp: Comp<M>) where M::Properties: PartialEq
        ensures
            comp == self || created(comp, props),
            M::Properties::obeys_eq_spec() && props.eq_spec(&self.props) ==> comp == self,
            M::Properties::obeys_eq_spec() && !props.eq_spec(&self.props) ==> created(comp, props),
    {
        if props == self.props {
            self
        } else {
            Self::new(props)
        }
    }

    /// Produces the tree where there is none yet.
    pub fn resolve(&mut self)
        ensures
            final(self).model == old(self).model,
            final(self).props == old(self).props,
            match old(self).view {
                Some(_) => final(self).view == old(self).view,
                None => final(self).view matches Some(new_view) && call_ensures(
                    M::view,
                    (&old(self).model,),
                    new_view,
                ),
            },
    {
        if self.view.is_none() {
            self.view = Some(self.model.view());
        }
    }

    /// Does to the tree what the outcome `change` of an update asks for.
    pub fn apply(&mut self, change: ChangeView)
        ensures
            applied(*old(self), change, *final(self)),
    {
        match change {
            ChangeView::Nothing => {},
            ChangeView::Modify => {
                match &mut self.view {
                    Some(node) => {
                        modify(&self.model, node);
                    },
                    None => {},
                }
            },
            ChangeView::Rebuild => {
                self.view = Some(self.model.view());
            },
        }
    }

    /// Hands `msg` to the component, with its tree at hand, and does to
    /// the tree what the update asks for. Returns the update's outcome.
    ///
    /// The update is [`Component::update_with_view`], called once, on the
    /// state and the tree of before and on `msg`: the outcome returned and
    /// the state afterwards are those that this call has left.
    pub fn send_self(&mut self, msg: M::Message) -> (change: ChangeView)
        ensures
            exists|handed: &mut M|
                {
                    &&& mut_ref_current(handed) == old(self).model
                    &&& mut_ref_future(handed) == final(self).model
                    &&& #[trigger] call_ensures(
                        M::update_with_view,
                        (handed, at_hand(&old(self).view), msg),
                        change,
                    )
                },
            applied(
                Comp { model: final(self).model, props: old(self).props, view: old(self).view },
                change,
                *final(self),
            ),
    {
        let change = self.model.update_with_view(self.view.as_ref(), msg);
        self.apply(change);
        change
    }

    /// Hands `msg` to the component that owns the node that `finger`
    /// addresses. A finger that addresses nothing in the tree at hand, or
    /// any finger while there is no tree, is an error, and the message is
    /// dropped.
    ///
    /// Where the finger addresses a node, the message is delivered as
    /// [`Comp::send_self`] delivers it: the outcome returned and the state
    /// afterwards are those that [`Component::update_with_view`], called
    /// once on the state and the tree of before and on `msg`, has left.
    pub fn send(&mut self, finger: &Finger, msg: M::Message) -> (sent: Result<
        ChangeView,
        AddressingError,
    >)
        ensures
            match sent {
                Ok(change) => {
                    &&& old(self).view matches Some(old_view) && resolve(old_view@, *finger) is Ok
                    &&& exists|handed: &mut M|
                        {
                            &&& mut_ref_current(handed) == old(self).model
                            &&& mut_ref_future(handed) == final(self).model
                            &&& #[trigger] call_ensures(
                                M::update_with_view,
                                (handed, at_hand(&old(self).view), msg),
                                change,
                            )
                        }
                    &&& applied(
                        Comp {
                            model: final(self).model,
                            props: old(self).props,
                            view: old(self).view,
                        },
                        change,
                        *final(self),
                    )
                },
                Err(error) => {
                    &&& *final(self) == *old(self)
                    &&& match old(self).view {
                        Some(old_view) => resolve(old_view@, *finger) == Err::<
                            NodeView,
                            AddressingError,
                        >(error),
                        None => error == (AddressingError::NotFound { depth: 0 }),
                    }
                },
            },
    {
        let found = match &self.view {
            Some(view) => match view.resolve(finger) {
                Ok(_) => None,
                Err(error) => Some(error),
            },
            None => Some(AddressingError::NotFound { depth: 0 }),
        };
        match found {
            Some(error) => Err(error),
            None => Ok(self.send_self(msg)),
        }
    }

    /// Hands a notification of the engine to the component. Where the
    /// component turns it into a message of its own, that message is
    /// delivered and its outcome returned.
    ///
    /// The notification goes to [`Component::system_update`], called once
    /// on the state of before. Where that call returns no message, nothing
    /// is returned, the state is as the call has left it, and the tree
    /// stays. Where it returns a message, that message goes to
    /// [`Component::update_with_view`], called once on the state that the
    /// first call has left and on the tree of before, and the outcome and
    /// the state afterwards are those of this second call.
    pub fn system(&mut self, msg: SystemMessage) -> (outcome: Option<ChangeView>)
        ensures
            final(self).props == old(self).props,
            exists|asked: &mut M, own: Option<M::Message>|
                {
                    &&& mut_ref_current(asked) == old(self).model
                    &&& #[trigger] call_ensures(M::system_update, (asked, msg), own)
                    &&& match own {
                        Some(message) => {
                            &&& outcome is Some
                            &&& exists|handed: &mut M|
                                {
                                    &&& mut_ref_current(handed) == mut_ref_future(asked)
                                    &&& mut_ref_future(handed) == final(self).model
                                    &&& #[trigger] call_ensures(
                                        M::update_with_view,
                                        (handed, at_hand(&old(self).view), message),
                                        outcome->0,
                                    )
                                }
                        },
                        None => {
                            &&& outcome is None
                            &&& mut_ref_future(asked) == final(self).model
                        },
                    }
                },
            match outcome {
                Some(change) => applied(
                    Comp { model: final(self).model, props: old(self).props, view: old(self).view },
                    change,
                    *final(self),
                ),
                None => final(self).view == old(self).view,
            },
    {
        match self.model.system_update(msg) {
            Some(own) => Some(self.send_self(own)),
            None => None,
        }
    }
}

/// Whatever the update, a modification leaves the structure of the
/// component's tree alone.
pub proof fn law_modify_outcome_keeps_structure<M: Component>(before: Comp<M>, after: Comp<M>)
    requires
        applied(before, ChangeView::Modify, after),
        before.view is Some,
    ensures
        after.view is Some,
        same_structure(before.view->0@, after.view->0@),
        size(after.view->0@) == size(before.view->0@),
{
    law_modify_keeps_structure(before.model, before.view->0@, after.view->0@);
}

} // verus!
