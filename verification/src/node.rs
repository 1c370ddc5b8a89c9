//! Nodes whose representation is chosen when the program runs: a node is
//! either a positioned tree or a handle into an arena scope, and a set of
//! constructors builds the one or the other.
//!
//! A tree is of one representation throughout. The constructors take the
//! children of a node only in their own representation, and the node that
//! they make is of that representation too.

use crate::arena_syntax::{ArenaNode, ArenaScope};
use crate::positioned_syntax::PositionedSyntax;
use crate::syntax::{Shape, SyntaxKind, Token};
use crate::syntax_smart_constructors::{
    ArenaState, NoState, SmartConstructors, StateType, SyntaxType,
};
use vstd::prelude::*;

verus! {

/// The ways in which a syntax tree is held.
#[derive(Clone, Copy, Debug, PartialEq, Eq, Structural)]
pub enum Representation {
    Positioned,
    Arena,
}

/// A node of either representation.
#[derive(Debug)]
pub enum Node {
    Positioned(PositionedSyntax),
    Arena(ArenaNode),
}

impl Node {
    /// The representation that this is of.
    pub open spec fn representation_spec(&self) -> Representation {
        match self {
            Node::Positioned(_) => Representation::Positioned,
            Node::Arena(_) => Representation::Arena,
        }
    }

    /// The representation that the node is of.
    #[verifier::when_used_as_spec(representation_spec)]
    pub fn representation(&self) -> (representation: Representation)
        ensures
            representation == self.representation_spec(),
    {
        match self {
            Node::Positioned(_) => Representation::Positioned,
            Node::Arena(_) => Representation::Arena,
        }
    }
}

/// Why constructors refuse to make a node. Either is a fault of the caller,
/// not of the source text, and ends the compilation of the file.
#[derive(Clone, Copy, Debug, PartialEq, Eq, Structural)]
pub enum ConstructionError {
    /// The kind does not take as many children as were given.
    WrongArity { kind: SyntaxKind, count: usize },
    /// The child at this place is of another representation, of another
    /// arena scope, or not well formed.
    ForeignChild { place: usize },
}

/// The positioned trees that `nodes` hold, in order.
pub open spec fn positioned_of(nodes: Seq<Node>) -> Seq<PositionedSyntax> {
    Seq::new(nodes.len(), |i: int| nodes[i]->Positioned_0)
}

/// The arena handles that `nodes` hold, in order.
pub open spec fn arena_of(nodes: Seq<Node>) -> Seq<ArenaNode> {
    Seq::new(nodes.len(), |i: int| nodes[i]->Arena_0)
}

/// The smart constructors of one representation or the other.
pub enum NodeConstructors {
    Positioned(SmartConstructors<PositionedSyntax, NoState>),
    Arena(SmartConstructors<ArenaNode, ArenaState>),
}

impl NodeConstructors {
    /// The representation that this is of.
    pub open spec fn representation_spec(&self) -> Representation {
        match self {
            NodeConstructors::Positioned(_) => Representation::Positioned,
            NodeConstructors::Arena(_) => Representation::Arena,
        }
    }

    /// Whether `node` can be the child of a node that these constructors
    /// make: it is of their representation, and a tree that they could
    /// have made.
    pub open spec fn admits(&self, node: Node) -> bool {
        match (self, node) {
            (NodeConstructors::Positioned(_), Node::Positioned(tree)) => tree.well_formed(),
            (NodeConstructors::Arena(constructors), Node::Arena(handle)) => constructors.store.holds(
                handle,
            ),
            _ => false,
        }
    }

    /// Whether these constructors admit all of `nodes`.
    pub open spec fn admits_all(&self, nodes: Seq<Node>) -> bool {
        forall|i: int| 0 <= i < nodes.len() ==> self.admits(#[trigger] nodes[i])
    }

    /// The place of the first of `nodes` that these constructors do not
    /// admit.
    pub open spec fn first_refused(&self, nodes: Seq<Node>) -> Option<int>
        decreases nodes.len(),
    {
        if nodes.len() == 0 {
            None
        } else {
            match self.first_refused(nodes.drop_last()) {
                Some(place) => Some(place),
                None => if self.admits(nodes.last()) {
                    None
                } else {
                    Some(nodes.len() - 1)
                },
            }
        }
    }

    /// The fault in making a node of kind `kind` above `children`, if there
    /// is one: a wrong number of children, else the first child that is not
    /// admitted.
    pub open spec fn fault(&self, kind: SyntaxKind, children: Seq<Node>) -> Option<
        ConstructionError,
    > {
        if !kind.admits(children.len()) {
            Some(ConstructionError::WrongArity { kind, count: children.len() as usize })
        } else {
            match self.first_refused(children) {
                Some(place) => Some(ConstructionError::ForeignChild { place: place as usize }),
                None => None,
            }
        }
    }

    /// The shape of the tree below `node`.
    pub open spec fn shape_of(&self, node: Node) -> Shape {
        match (self, node) {
            (NodeConstructors::Arena(constructors), Node::Arena(handle)) => constructors.store.shape_of(
                handle,
            ),
            (_, Node::Positioned(tree)) => tree.shape(),
            _ => Shape::leaf(),
        }
    }

    /// The shapes of the trees below `nodes`, in order.
    pub open spec fn shapes_of(&self, nodes: Seq<Node>) -> Seq<Shape> {
        Seq::new(nodes.len(), |i: int| self.shape_of(nodes[i]))
    }

    /// Whether every node that `self` admits is admitted by `after`, with
    /// the shape that it had.
    pub open spec fn kept_by(&self, after: &NodeConstructors) -> bool {
        forall|node: Node| #[trigger]
            self.admits(node) ==> after.admits(node) && after.shape_of(node) == self.shape_of(
                node,
            )
    }

    /// Whether `node` and `after` are what making a node of kind `kind`
    /// above `children` with `self` gives: the constructors of the
    /// representation of `self` have made the node, and their state has
    /// been told of it once.
    pub open spec fn made(
        &self,
        after: &NodeConstructors,
        node: Node,
        kind: SyntaxKind,
        children: Seq<Node>,
    ) -> bool {
        match (self, after, node) {
            (
                NodeConstructors::Positioned(old),
                NodeConstructors::Positioned(new),
                Node::Positioned(tree),
            ) => {
                &&& new.state == old.state.stepped(positioned_of(children))
                &&& PositionedSyntax::is_made(
                    &tree,
                    &new.store,
                    &old.store,
                    kind,
                    positioned_of(children),
                )
            },
            (NodeConstructors::Arena(old), NodeConstructors::Arena(new), Node::Arena(handle)) => {
                &&& new.state == old.state.stepped(arena_of(children))
                &&& ArenaNode::is_made(&handle, &new.store, &old.store, kind, arena_of(children))
            },
            _ => false,
        }
    }

    /// Whether `node` and `after` are what making a leaf for `token` with
    /// `self` gives.
    pub open spec fn made_token(&self, after: &NodeConstructors, node: Node, token: Token) -> bool {
        match (self, after, node) {
            (
                NodeConstructors::Positioned(old),
                NodeConstructors::Positioned(new),
                Node::Positioned(tree),
            ) => {
                &&& new.state == old.state.stepped(Seq::<PositionedSyntax>::empty())
                &&& PositionedSyntax::is_token(&tree, &new.store, &old.store, token)
            },
            (NodeConstructors::Arena(old), NodeConstructors::Arena(new), Node::Arena(handle)) => {
                &&& new.state == old.state.stepped(Seq::<ArenaNode>::empty())
                &&& ArenaNode::is_token(&handle, &new.store, &old.store, token)
            },
            _ => false,
        }
    }

    /// Constructors of positioned trees.
    pub fn positioned() -> (constructors: NodeConstructors)
        ensures
            constructors == NodeConstructors::Positioned(
                SmartConstructors { state: NoState, store: () },
            ),
    {
        NodeConstructors::Positioned(SmartConstructors::new(NoState, ()))
    }

    /// Constructors of trees in the arena scope `scope`.
    pub fn arena(scope: ArenaScope) -> (constructors: NodeConstructors)
        ensures
            constructors == NodeConstructors::Arena(
                SmartConstructors { state: ArenaState { scope: scope.id_spec() }, store: scope },
            ),
    {
        let state = ArenaState::of(&scope);
        NodeConstructors::Arena(SmartConstructors::new(state, scope))
    }

    /// The representation of the trees that these constructors build.
    #[verifier::when_used_as_spec(representation_spec)]
    pub fn representation(&self) -> (representation: Representation)
        ensures
            representation == self.representation_spec(),
    {
        match self {
            NodeConstructors::Positioned(_) => Representation::Positioned,
            NodeConstructors::Arena(_) => Representation::Arena,
        }
    }

    /// Whether `node` can be the child of a node that these constructors
    /// make.
    pub fn accepts(&self, node: &Node) -> (ok: bool)
        ensures
            ok == self.admits(*node),
    {
        match (self, node) {
            (NodeConstructors::Positioned(constructors), Node::Positioned(tree)) => tree.fits(
                &constructors.store,
            ),
            (NodeConstructors::Arena(constructors), Node::Arena(handle)) => handle.fits(
                &constructors.store,
            ),
            _ => false,
        }
    }

    /// Makes the node of kind `kind` above `children` if the kind takes
    /// that many children and every child is admitted; else leaves the
    /// constructors as they are and reports the fault.
    pub fn checked_make(&mut self, kind: SyntaxKind, children: Vec<Node>) -> (made: Result<
        Node,
        ConstructionError,
    >)
        ensures
            match old(self).fault(kind, children@) {
                Some(fault) => made == Err::<Node, ConstructionError>(fault) && *final(self)
                    == *old(self),
                None => made matches Ok(node) && old(self).made(final(self), node, kind, children@),
            },
    {
        if !kind.accepts(children.len()) {
            return Err(ConstructionError::WrongArity { kind, count: children.len() });
        }
        let mut i: usize = 0;
        while i < children.len()
            invariant
                i <= children.len(),
                kind.admits(children@.len()),
                self.first_refused(children@.take(i as int)) is None,
                *self == *old(self),
            decreases children.len() - i,
        {
            proof {
                assert(children@.take(i + 1).drop_last() =~= children@.take(i as int));
                assert(children@.take(i + 1).last() == children@[i as int]);
            }
            if !self.accepts(&children[i]) {
                proof {
                    lemma_first_refused_prefix(*self, children@, i as int);
                }
                return Err(ConstructionError::ForeignChild { place: i });
            }
            i += 1;
        }
        proof {
            assert(children@.take(i as int) =~= children@);
            lemma_none_refused(*self, children@);
        }
        Ok(self.make(kind, children))
    }

    /// Makes the leaf that holds `token`, in the representation of these
    /// constructors.
    pub fn make_token(&mut self, token: Token) -> (node: Node)
        ensures
            old(self).made_token(final(self), node, token),
            node.representation_spec() == old(self).representation_spec(),
            final(self).representation_spec() == old(self).representation_spec(),
            final(self).admits(node),
            final(self).shape_of(node) == Shape::leaf(),
            old(self).kept_by(final(self)),
    {
        match self {
            NodeConstructors::Positioned(constructors) => {
                let tree = constructors.make_token(token);
                Node::Positioned(tree)
            },
            NodeConstructors::Arena(constructors) => {
                let ghost before = constructors.store;
                let handle = constructors.make_token(token);
                proof {
                    assert forall|held: ArenaNode| #[trigger]
                        before.holds(held) implies constructors.store.holds(held)
                        && constructors.store.shape_of(held) == before.shape_of(held) by {
                        assert(held.in_store(&before));
                    }
                }
                Node::Arena(handle)
            },
        }
    }

    /// Makes the node of kind `kind` above `children`, in the
    /// representation of these constructors, which is that of every child.
    pub fn make(&mut self, kind: SyntaxKind, children: Vec<Node>) -> (node: Node)
        requires
            kind.admits(children@.len()),
            old(self).admits_all(children@),
        ensures
            old(self).made(final(self), node, kind, children@),
            node.representation_spec() == old(self).representation_spec(),
            final(self).representation_spec() == old(self).representation_spec(),
            forall|i: int|
                0 <= i < children@.len() ==> (#[trigger] children@[i]).representation_spec()
                    == node.representation_spec(),
            final(self).admits(node),
            final(self).shape_of(node) == (Shape {
                kind,
                children: old(self).shapes_of(children@),
            }),
            old(self).kept_by(final(self)),
    {
        proof {
            assert forall|i: int| 0 <= i < children@.len() implies (
            #[trigger] children@[i]).representation_spec() == self.representation_spec() by {
                assert(self.admits(children@[i]));
            }
        }
        match self {
            NodeConstructors::Positioned(constructors) => {
                let trees = positioned_children(children);
                proof {
                    assert forall|i: int| 0 <= i < trees@.len() implies (
                    #[trigger] trees@[i]).in_store(&constructors.store) by {
                        assert(old(self).admits(children@[i]));
                    }
                }
                let tree = constructors.make(kind, trees);
                proof {
                    assert(tree.shape_in(&constructors.store).children =~= old(self).shapes_of(
                        children@,
                    ));
                }
                Node::Positioned(tree)
            },
            NodeConstructors::Arena(constructors) => {
                let ghost before = constructors.store;
                let handles = arena_children(children);
                proof {
                    assert forall|i: int| 0 <= i < handles@.len() implies (
                    #[trigger] handles@[i]).in_store(&constructors.store) by {
                        assert(old(self).admits(children@[i]));
                    }
                }
                let handle = constructors.make(kind, handles);
                proof {
                    assert(handle.shape_in(&constructors.store).children =~= old(self).shapes_of(
                        children@,
                    ));
                    assert forall|held: ArenaNode| #[trigger]
                        before.holds(held) implies constructors.store.holds(held)
                        && constructors.store.shape_of(held) == before.shape_of(held) by {
                        assert(held.in_store(&before));
                    }
                }
                Node::Arena(handle)
            },
        }
    }
}

/// Where constructors refuse none of `nodes`, they admit them all.
pub proof fn lemma_none_refused(constructors: NodeConstructors, nodes: Seq<Node>)
    requires
        constructors.first_refused(nodes) is None,
    ensures
        constructors.admits_all(nodes),
    decreases nodes.len(),
{
    if nodes.len() > 0 {
        lemma_none_refused(constructors, nodes.drop_last());
        assert forall|i: int| 0 <= i < nodes.len() implies constructors.admits(
            #[trigger] nodes[i],
        ) by {
            if i < nodes.len() - 1 {
                assert(nodes.drop_last()[i] == nodes[i]);
            }
        }
    }
}

/// The first node refused is the one at `place` if it is refused and none
/// before it is.
pub proof fn lemma_first_refused_prefix(constructors: NodeConstructors, nodes: Seq<Node>, place: int)
    requires
        0 <= place < nodes.len(),
        constructors.first_refused(nodes.take(place)) is None,
        !constructors.admits(nodes[place]),
    ensures
        constructors.first_refused(nodes) == Some(place),
    decreases nodes.len(),
{
    if place == nodes.len() - 1 {
        assert(nodes.drop_last() =~= nodes.take(place));
    } else {
        assert(nodes.drop_last().take(place) =~= nodes.take(place));
        lemma_first_refused_prefix(constructors, nodes.drop_last(), place);
    }
}

/// A tree is of one representation throughout: the node that constructors
/// make is of their representation, and so is each of its children. The
/// constructors stay of the representation that they were of.
pub proof fn lemma_one_representation(
    before: NodeConstructors,
    after: NodeConstructors,
    node: Node,
    kind: SyntaxKind,
    children: Seq<Node>,
)
    requires
        before.admits_all(children),
        before.made(&after, node, kind, children),
    ensures
        node.representation_spec() == before.representation_spec(),
        after.representation_spec() == before.representation_spec(),
        forall|i: int|
            0 <= i < children.len() ==> (#[trigger] children[i]).representation_spec()
                == node.representation_spec(),
{
    assert forall|i: int| 0 <= i < children.len() implies (
    #[trigger] children[i]).representation_spec() == node.representation_spec() by {
        assert(before.admits(children[i]));
    }
}

/// The positioned trees that `nodes` hold, in order.
fn positioned_children(nodes: Vec<Node>) -> (trees: Vec<PositionedSyntax>)
    requires
        forall|i: int| 0 <= i < nodes@.len() ==> (#[trigger] nodes@[i]) is Positioned,
    ensures
        trees@ == positioned_of(nodes@),
{
    let mut trees: Vec<PositionedSyntax> = Vec::new();
    for node in it: nodes.into_iter()
        invariant
            it.seq() == nodes@,
            trees@ == positioned_of(nodes@.take(it.index())),
            forall|i: int| 0 <= i < nodes@.len() ==> (#[trigger] nodes@[i]) is Positioned,
    {
        let ghost at = it.index();
        match node {
            Node::Positioned(tree) => {
                trees.push(tree);
            },
            Node::Arena(_) => {
                proof {
                    assert(nodes@[at] is Positioned);
                }
            },
        }
        proof {
            assert(trees@ =~= positioned_of(nodes@.take(at + 1)));
        }
    }
    proof {
        assert(nodes@.take(nodes@.len() as int) =~= nodes@);
    }
    trees
}

/// The arena handles that `nodes` hold, in order.
fn arena_children(nodes: Vec<Node>) -> (handles: Vec<ArenaNode>)
    requires
        forall|i: int| 0 <= i < nodes@.len() ==> (#[trigger] nodes@[i]) is Arena,
    ensures
        handles@ == arena_of(nodes@),
{
    let mut handles: Vec<ArenaNode> = Vec::new();
    for node in it: nodes.into_iter()
        invariant
            it.seq() == nodes@,
            handles@ == arena_of(nodes@.take(it.index())),
            forall|i: int| 0 <= i < nodes@.len() ==> (#[trigger] nodes@[i]) is Arena,
    {
        let ghost at = it.index();
        match node {
            Node::Arena(handle) => {
                handles.push(handle);
            },
            Node::Positioned(_) => {
                proof {
                    assert(nodes@[at] is Arena);
                }
            },
        }
        proof {
            assert(handles@ =~= arena_of(nodes@.take(at + 1)));
        }
    }
    proof {
        assert(nodes@.take(nodes@.len() as int) =~= nodes@);
    }
    handles
}

} // verus!
