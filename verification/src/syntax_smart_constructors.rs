//! The table of smart constructors: one way of building a syntax tree from
//! the leaves up, shared by every representation of the tree and every kind
//! of construction state.
//!
//! The table is generic in two things. The representation, a
//! [`SyntaxType`], says how a node is made and where nodes live. The
//! state, a [`StateType`], is told of every node that is made, once, with
//! the children that the node was made from.

use crate::arena_syntax::{indices_of, shape_at, ArenaNode, ArenaScope, NodeData};
use crate::positioned_syntax::{covering, PositionedSyntax};
use crate::syntax::{Shape, SyntaxKind, Token};
use vstd::prelude::*;

verus! {

/// The nodes that a sequence of references points at.
pub open spec fn pointees<R>(inputs: Seq<&R>) -> Seq<R> {
    Seq::new(inputs.len(), |i: int| *inputs[i])
}

/// A state that is threaded through the construction of a tree.
pub trait StateType<R>: Clone {
    /// The state that `self` becomes when it is told of a node made from
    /// `inputs`.
    spec fn stepped(&self, inputs: Seq<R>) -> Self;

    /// Tells the state of a node that is being made from `inputs`.
    fn next(&mut self, inputs: &[&R])
        ensures
            *final(self) == old(self).stepped(pointees(inputs@)),
    ;
}

/// The state that keeps nothing.
#[derive(Clone, Copy, Debug, PartialEq, Eq, Structural)]
pub struct NoState;

impl<R> StateType<R> for NoState {
    open spec fn stepped(&self, inputs: Seq<R>) -> NoState {
        *self
    }

    fn next(&mut self, _inputs: &[&R]) {
    }
}

/// The state that names the arena scope in which nodes are to be made.
#[derive(Clone, Copy, Debug, PartialEq, Eq, Structural)]
pub struct ArenaState {
    pub scope: u64,
}

impl<R> StateType<R> for ArenaState {
    open spec fn stepped(&self, inputs: Seq<R>) -> ArenaState {
        *self
    }

    fn next(&mut self, _inputs: &[&R]) {
    }
}

/// A representation of syntax trees.
pub trait SyntaxType: Sized {
    /// Where the nodes of a tree live.
    type Store;

    /// Whether the node can be used with `store`.
    spec fn in_store(&self, store: &Self::Store) -> bool;

    /// The shape of the tree below the node.
    spec fn shape_in(&self, store: &Self::Store) -> Shape;

    /// Whether `node` and `after` are what making a leaf for `token` with
    /// the store `before` gives.
    spec fn is_token(
        node: &Self,
        after: &Self::Store,
        before: &Self::Store,
        token: Token,
    ) -> bool;

    /// Whether `node` and `after` are what making a node of kind `kind`
    /// above `children` with the store `before` gives.
    spec fn is_made(
        node: &Self,
        after: &Self::Store,
        before: &Self::Store,
        kind: SyntaxKind,
        children: Seq<Self>,
    ) -> bool;

    /// A leaf that was made can be used with the store that it was made
    /// in and has the shape of a leaf; the nodes made before stay as they
    /// were.
    proof fn lemma_token(node: Self, after: Self::Store, before: Self::Store, token: Token)
        requires
            Self::is_token(&node, &after, &before, token),
        ensures
            node.in_store(&after),
            node.shape_in(&after) == Shape::leaf(),
            forall|held: Self| #[trigger]
                held.in_store(&before) ==> held.in_store(&after) && held.shape_in(&after)
                    == held.shape_in(&before),
    ;

    /// A node that was made can be used with the store that it was made
    /// in; its shape is its kind above the shapes of its children; the
    /// nodes made before stay as they were.
    proof fn lemma_made(
        node: Self,
        after: Self::Store,
        before: Self::Store,
        kind: SyntaxKind,
        children: Seq<Self>,
    )
        requires
            kind.admits(children.len()),
            forall|i: int| 0 <= i < children.len() ==> (#[trigger] children[i]).in_store(&before),
            Self::is_made(&node, &after, &before, kind, children),
        ensures
            node.in_store(&after),
            node.shape_in(&after) == (Shape {
                kind,
                children: Seq::new(children.len(), |i: int| children[i].shape_in(&before)),
            }),
            forall|held: Self| #[trigger]
                held.in_store(&before) ==> held.in_store(&after) && held.shape_in(&after)
                    == held.shape_in(&before),
    ;

    /// Whether the node can be used with `store`.
    fn fits(&self, store: &Self::Store) -> (ok: bool)
        ensures
            ok == self.in_store(store),
    ;

    /// Makes the leaf that holds `token`.
    fn make_token(store: &mut Self::Store, token: Token) -> (node: Self)
        ensures
            Self::is_token(&node, final(store), old(store), token),
    ;

    /// Makes the node of kind `kind` above `children`.
    fn make(store: &mut Self::Store, kind: SyntaxKind, children: Vec<Self>) -> (node: Self)
        requires
            kind.admits(children@.len()),
            forall|i: int| 0 <= i < children@.len() ==> (#[trigger] children@[i]).in_store(
                old(store),
            ),
        ensures
            Self::is_made(&node, final(store), old(store), kind, children@),
    ;
}

/// Whether all of `nodes` can be used with `store`.
pub open spec fn all_in_store<R: SyntaxType>(nodes: Seq<R>, store: &R::Store) -> bool {
    forall|i: int| 0 <= i < nodes.len() ==> (#[trigger] nodes[i]).in_store(store)
}

/// The shapes of the trees below `nodes`, in order.
pub open spec fn shapes_in<R: SyntaxType>(nodes: Seq<R>, store: &R::Store) -> Seq<Shape> {
    Seq::new(nodes.len(), |i: int| nodes[i].shape_in(store))
}

/// Whether every node that can be used with `before` can be used with
/// `after`, with the shape that it had.
pub open spec fn kept<R: SyntaxType>(before: &R::Store, after: &R::Store) -> bool {
    forall|node: R| #[trigger]
        node.in_store(before) ==> node.in_store(after) && node.shape_in(after) == node.shape_in(
            before,
        )
}

impl SyntaxType for PositionedSyntax {
    type Store = ();

    open spec fn in_store(&self, store: &()) -> bool {
        self.well_formed()
    }

    open spec fn shape_in(&self, store: &()) -> Shape {
        self.shape()
    }

    open spec fn is_token(node: &PositionedSyntax, after: &(), before: &(), token: Token) -> bool {
        *node == PositionedSyntax::Token(token)
    }

    open spec fn is_made(
        node: &PositionedSyntax,
        after: &(),
        before: &(),
        kind: SyntaxKind,
        children: Seq<PositionedSyntax>,
    ) -> bool {
        &&& node.kind_spec() == kind
        &&& node.children_spec() == children
        &&& node.span_spec() == covering(children)
    }

    proof fn lemma_token(node: PositionedSyntax, after: (), before: (), token: Token) {
    }

    proof fn lemma_made(
        node: PositionedSyntax,
        after: (),
        before: (),
        kind: SyntaxKind,
        children: Seq<PositionedSyntax>,
    ) {
        assert(node.shape().children =~= Seq::new(
            children.len(),
            |i: int| children[i].shape_in(&before),
        ));
    }

    fn fits(&self, store: &()) -> (ok: bool) {
        self.is_well_formed()
    }

    fn make_token(store: &mut (), token: Token) -> (node: PositionedSyntax) {
        PositionedSyntax::from_token(token)
    }

    fn make(store: &mut (), kind: SyntaxKind, children: Vec<PositionedSyntax>) -> (node:
        PositionedSyntax) {
        PositionedSyntax::from_children(kind, children)
    }
}

/// Putting one more entry into a scope changes the shape of no tree that
/// the scope held.
pub proof fn lemma_shape_kept(entries: Seq<NodeData>, entry: NodeData, index: int)
    requires
        0 <= index < entries.len(),
    ensures
        shape_at(entries.push(entry), index) == shape_at(entries, index),
    decreases index,
{
    let after = entries.push(entry);
    assert(after[index] == entries[index]);
    match entries[index] {
        NodeData::Token(_) => {},
        NodeData::Node { kind, children } => {
            assert forall|j: int| 0 <= j < children.len() && children[j] < index implies shape_at(
                after,
                children[j] as int,
            ) == shape_at(entries, children[j] as int) by {
                lemma_shape_kept(entries, entry, children[j] as int);
            }
            assert(shape_at(after, index).children =~= shape_at(entries, index).children);
        },
    }
}

impl SyntaxType for ArenaNode {
    type Store = ArenaScope;

    open spec fn in_store(&self, store: &ArenaScope) -> bool {
        store.holds(*self)
    }

    open spec fn shape_in(&self, store: &ArenaScope) -> Shape {
        store.shape_of(*self)
    }

    open spec fn is_token(
        node: &ArenaNode,
        after: &ArenaScope,
        before: &ArenaScope,
        token: Token,
    ) -> bool {
        &&& after@ == before@.push(NodeData::Token(token))
        &&& after.id_spec() == before.id_spec()
        &&& node.scope == before.id_spec()
        &&& node.index == before@.len()
        &&& before.well_formed() ==> after.well_formed()
    }

    open spec fn is_made(
        node: &ArenaNode,
        after: &ArenaScope,
        before: &ArenaScope,
        kind: SyntaxKind,
        children: Seq<ArenaNode>,
    ) -> bool {
        &&& after@ == before@.push(NodeData::Node { kind, children: indices_of(children) })
        &&& after.id_spec() == before.id_spec()
        &&& node.scope == before.id_spec()
        &&& node.index == before@.len()
        &&& before.well_formed() ==> after.well_formed()
    }

    proof fn lemma_token(node: ArenaNode, after: ArenaScope, before: ArenaScope, token: Token) {
        assert(after@[before@.len() as int] == NodeData::Token(token));
        assert forall|held: ArenaNode| #[trigger]
            held.in_store(&before) implies held.in_store(&after) && held.shape_in(&after)
            == held.shape_in(&before) by {
            lemma_shape_kept(before@, NodeData::Token(token), held.index as int);
        }
    }

    proof fn lemma_made(
        node: ArenaNode,
        after: ArenaScope,
        before: ArenaScope,
        kind: SyntaxKind,
        children: Seq<ArenaNode>,
    ) {
        let entry = NodeData::Node { kind, children: indices_of(children) };
        let index = before@.len() as int;
        let places = indices_of(children);
        let shape = shape_at(after@, index);
        assert(after@[index] == entry);
        assert(shape.children.len() == children.len());
        assert forall|j: int| 0 <= j < children.len() implies shape.children[j]
            == children[j].shape_in(&before) by {
            assert(children[j].in_store(&before));
            assert(places[j] == children[j].index);
            lemma_shape_kept(before@, entry, places[j] as int);
        }
        assert(shape.children =~= Seq::new(
            children.len(),
            |i: int| children[i].shape_in(&before),
        ));
        assert forall|held: ArenaNode| #[trigger]
            held.in_store(&before) implies held.in_store(&after) && held.shape_in(&after)
            == held.shape_in(&before) by {
            lemma_shape_kept(before@, entry, held.index as int);
        }
    }

    fn fits(&self, store: &ArenaScope) -> (ok: bool) {
        store.owns(*self)
    }

    fn make_token(store: &mut ArenaScope, token: Token) -> (node: ArenaNode) {
        store.alloc_token(token)
    }

    fn make(store: &mut ArenaScope, kind: SyntaxKind, children: Vec<ArenaNode>) -> (node:
        ArenaNode) {
        proof {
            lemma_no_stranger(old(store), children@);
        }
        match store.alloc_node(kind, &children) {
            Ok(node) => node,
            Err(_) => vstd::pervasive::unreached(),
        }
    }
}

/// Where a scope holds all of `nodes`, none of them is a stranger to it.
pub proof fn lemma_no_stranger(scope: &ArenaScope, nodes: Seq<ArenaNode>)
    requires
        scope.holds_all(nodes),
    ensures
        scope.first_stranger(nodes) is None,
    decreases nodes.len(),
{
    if nodes.len() > 0 {
        assert(scope.holds(nodes[0]));
        assert forall|i: int| 0 <= i < nodes.drop_first().len() implies scope.holds(
            #[trigger] nodes.drop_first()[i],
        ) by {
            assert(nodes.drop_first()[i] == nodes[i + 1]);
        }
        lemma_no_stranger(scope, nodes.drop_first());
    }
}

/// The smart constructors for the representation `R`, threading a state of
/// type `S`.
pub struct SmartConstructors<R: SyntaxType, S: StateType<R>> {
    pub state: S,
    pub store: R::Store,
}

/// References to the elements of `nodes`, in order.
fn references<R>(nodes: &Vec<R>) -> (refs: Vec<&R>)
    ensures
        pointees(refs@) == nodes@,
{
    let mut refs: Vec<&R> = Vec::new();
    let mut i: usize = 0;
    while i < nodes.len()
        invariant
            i <= nodes.len(),
            refs@.len() == i,
            forall|j: int| 0 <= j < i ==> *refs@[j] == nodes@[j],
        decreases nodes.len() - i,
    {
        refs.push(&nodes[i]);
        i += 1;
    }
    assert(pointees(refs@) =~= nodes@);
    refs
}

impl<R: SyntaxType, S: StateType<R>> SmartConstructors<R, S> {
    /// The constructors that start from `state` and put their nodes into
    /// `store`.
    pub fn new(state: S, store: R::Store) -> (constructors: SmartConstructors<R, S>)
        ensures
            constructors.state == state,
            constructors.store == store,
    {
        SmartConstructors { state, store }
    }

    /// Makes the node of kind `kind` above `children`. The state is told of
    /// the node once, with `children`, before the node is made.
    pub fn make(&mut self, kind: SyntaxKind, children: Vec<R>) -> (node: R)
        requires
            kind.admits(children@.len()),
            all_in_store(children@, &old(self).store),
        ensures
            final(self).state == old(self).state.stepped(children@),
            R::is_made(&node, &final(self).store, &old(self).store, kind, children@),
            node.in_store(&final(self).store),
            node.shape_in(&final(self).store) == (Shape {
                kind,
                children: shapes_in(children@, &old(self).store),
            }),
            kept::<R>(&old(self).store, &final(self).store),
    {
        let refs = references(&children);
        self.state.next(refs.as_slice());
        let node = R::make(&mut self.store, kind, children);
        proof {
            R::lemma_made(node, self.store, old(self).store, kind, children@);
            assert(shapes_in(children@, &old(self).store) =~= Seq::new(
                children@.len(),
                |i: int| children@[i].shape_in(&old(self).store),
            ));
        }
        node
    }

    /// Makes the leaf that holds `token`. The state is told of the leaf
    /// once, with no children.
    pub fn make_token(&mut self, token: Token) -> (node: R)
        ensures
            final(self).state == old(self).state.stepped(Seq::empty()),
            R::is_token(&node, &final(self).store, &old(self).store, token),
            node.in_store(&final(self).store),
            node.shape_in(&final(self).store) == Shape::leaf(),
            kept::<R>(&old(self).store, &final(self).store),
    {
        let node = R::make_token(&mut self.store, token);
        let refs: Vec<&R> = Vec::new();
        self.state.next(refs.as_slice());
        proof {
            R::lemma_token(node, self.store, old(self).store, token);
            assert(pointees(refs@) =~= Seq::<R>::empty());
        }
        node
    }

    /// Makes the node that stands where the source text has nothing. The
    /// state is told of the node once, with no children.
    pub fn make_missing(&mut self) -> (node: R)
        ensures
            final(self).state == old(self).state.stepped(Seq::empty()),
            R::is_made(
                &node,
                &final(self).store,
                &old(self).store,
                SyntaxKind::Missing,
                Seq::empty(),
            ),
            node.in_store(&final(self).store),
            node.shape_in(&final(self).store) == (Shape {
                kind: SyntaxKind::Missing,
                children: Seq::empty(),
            }),
            kept::<R>(&old(self).store, &final(self).store),
    {
        let children: Vec<R> = Vec::new();
        let ghost none = children@;
        assert(none =~= Seq::<R>::empty());
        let node = R::make(&mut self.store, SyntaxKind::Missing, children);
        let refs: Vec<&R> = Vec::new();
        self.state.next(refs.as_slice());
        proof {
            R::lemma_made(node, self.store, old(self).store, SyntaxKind::Missing, none);
            assert(pointees(refs@) =~= Seq::<R>::empty());
            assert(Seq::new(none.len(), |i: int| none[i].shape_in(&old(self).store))
                =~= Seq::<Shape>::empty());
        }
        node
    }

    /// Makes the list of `items`; the list of no items is the missing node.
    pub fn make_list(&mut self, items: Vec<R>) -> (node: R)
        requires
            all_in_store(items@, &old(self).store),
        ensures
            final(self).state == old(self).state.stepped(items@),
            R::is_made(
                &node,
                &final(self).store,
                &old(self).store,
                list_kind(items@.len()),
                items@,
            ),
            node.in_store(&final(self).store),
            node.shape_in(&final(self).store) == (Shape {
                kind: list_kind(items@.len()),
                children: shapes_in(items@, &old(self).store),
            }),
            kept::<R>(&old(self).store, &final(self).store),
    {
        if items.len() == 0 {
            let ghost none = items@;
            assert(none =~= Seq::<R>::empty());
            let node = self.make_missing();
            proof {
                assert(shapes_in(none, &old(self).store) =~= Seq::<Shape>::empty());
            }
            node
        } else {
            self.make(SyntaxKind::SyntaxList, items)
        }
    }

    /// Makes the node that stands for source text that fits no production,
    /// so that construction can go on.
    pub fn make_error(&mut self, error: R) -> (node: R)
        requires
            error.in_store(&old(self).store),
        ensures
            final(self).state == old(self).state.stepped(seq![error]),
            R::is_made(
                &node,
                &final(self).store,
                &old(self).store,
                SyntaxKind::ErrorSyntax,
                seq![error],
            ),
            node.in_store(&final(self).store),
            node.shape_in(&final(self).store) == (Shape {
                kind: SyntaxKind::ErrorSyntax,
                children: seq![error.shape_in(&old(self).store)],
            }),
            kept::<R>(&old(self).store, &final(self).store),
    {
        let mut children: Vec<R> = Vec::new();
        children.push(error);
        proof {
            assert(children@ =~= seq![error]);
            assert(shapes_in(children@, &old(self).store) =~= seq![
                error.shape_in(&old(self).store),
            ]);
        }
        self.make(SyntaxKind::ErrorSyntax, children)
    }
}

/// A state was paired with an arena scope that it does not name.
#[derive(Clone, Copy, Debug, PartialEq, Eq, Structural)]
pub struct ScopeMismatch {
    /// The id of the scope that the state names.
    pub named: u64,
    /// The id of the scope that was given.
    pub given: u64,
}

impl ArenaState {
    /// The state that names `scope`.
    pub fn of(scope: &ArenaScope) -> (state: ArenaState)
        ensures
            state.scope == scope.id_spec(),
    {
        ArenaState { scope: scope.id() }
    }
}

impl SmartConstructors<ArenaNode, ArenaState> {
    /// The constructors that put their nodes into `scope`, if that is the
    /// scope that `state` names. A state is never used with another scope
    /// than its own.
    pub fn in_arena(state: ArenaState, scope: ArenaScope) -> (made: Result<
        SmartConstructors<ArenaNode, ArenaState>,
        ScopeMismatch,
    >)
        ensures
            match made {
                Ok(constructors) => state.scope == scope.id_spec() && constructors.state == state
                    && constructors.store == scope,
                Err(mismatch) => state.scope != scope.id_spec() && mismatch == (ScopeMismatch {
                    named: state.scope,
                    given: scope.id_spec(),
                }),
            },
    {
        if state.scope == scope.id() {
            Ok(SmartConstructors { state, store: scope })
        } else {
            Err(ScopeMismatch { named: state.scope, given: scope.id() })
        }
    }
}

/// Construction is determined by shape. Two nodes of one kind made from
/// children of the same shapes have the same shape, whichever
/// representations they are made in and whatever their stores held before:
/// so the same calls, in the same order, give trees of one shape.
pub proof fn lemma_same_calls_same_shape<R1: SyntaxType, R2: SyntaxType>(
    kind: SyntaxKind,
    node1: R1,
    after1: R1::Store,
    before1: R1::Store,
    children1: Seq<R1>,
    node2: R2,
    after2: R2::Store,
    before2: R2::Store,
    children2: Seq<R2>,
)
    requires
        kind.admits(children1.len()),
        all_in_store(children1, &before1),
        all_in_store(children2, &before2),
        R1::is_made(&node1, &after1, &before1, kind, children1),
        R2::is_made(&node2, &after2, &before2, kind, children2),
        shapes_in(children1, &before1) == shapes_in(children2, &before2),
    ensures
        node1.shape_in(&after1) == node2.shape_in(&after2),
        node1.shape_in(&after1).kind == kind,
        node1.shape_in(&after1).children.len() == children1.len(),
{
    assert(children1.len() == shapes_in(children1, &before1).len());
    assert(children2.len() == shapes_in(children2, &before2).len());
    R1::lemma_made(node1, after1, before1, kind, children1);
    R2::lemma_made(node2, after2, before2, kind, children2);
    assert(shapes_in(children1, &before1) =~= Seq::new(
        children1.len(),
        |i: int| children1[i].shape_in(&before1),
    ));
    assert(shapes_in(children2, &before2) =~= Seq::new(
        children2.len(),
        |i: int| children2[i].shape_in(&before2),
    ));
}

/// Two leaves have the same shape, whichever representations they are
/// made in and whichever tokens they hold.
pub proof fn lemma_leaves_same_shape<R1: SyntaxType, R2: SyntaxType>(
    node1: R1,
    after1: R1::Store,
    before1: R1::Store,
    token1: Token,
    node2: R2,
    after2: R2::Store,
    before2: R2::Store,
    token2: Token,
)
    requires
        R1::is_token(&node1, &after1, &before1, token1),
        R2::is_token(&node2, &after2, &before2, token2),
    ensures
        node1.shape_in(&after1) == node2.shape_in(&after2),
{
    R1::lemma_token(node1, after1, before1, token1);
    R2::lemma_token(node2, after2, before2, token2);
}

/// The kind of the node that a list of `count` items is.
pub open spec fn list_kind(count: nat) -> SyntaxKind {
    if count == 0 {
        SyntaxKind::Missing
    } else {
        SyntaxKind::SyntaxList
    }
}

} // verus!
