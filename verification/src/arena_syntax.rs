//! The arena representation of a syntax tree: the nodes of one file live in
//! one scope, a node is a small handle into its scope, and a node's
//! children are earlier nodes of the same scope. No span is stored: it is
//! worked out from the tokens when asked for.
//!
//! A handle says which scope it came from. A scope answers only for its own
//! handles; presented with any other, it reports a [`LifetimeViolation`]
//! instead of reading.

use crate::syntax::{span_union_all, union_spans, Shape, Span, SyntaxKind, Token};
use vstd::prelude::*;

verus! {

/// A node of an arena scope: the scope's id and the node's place in it.
#[derive(Clone, Copy, Debug, PartialEq, Eq, Structural)]
pub struct ArenaNode {
    pub scope: u64,
    pub index: usize,
}

/// A handle was presented to a scope that does not hold its node.
#[derive(Clone, Copy, Debug, PartialEq, Eq, Structural)]
pub struct LifetimeViolation {
    pub node: ArenaNode,
}

/// What a scope holds for one node.
pub enum NodeData {
    Token(Token),
    Node { kind: SyntaxKind, children: Seq<usize> },
}

/// Whether entry `i` of `entries` has as many children as its kind takes,
/// all of them earlier entries.
pub open spec fn entry_well_formed(entries: Seq<NodeData>, i: int) -> bool {
    match entries[i] {
        NodeData::Token(_) => true,
        NodeData::Node { kind, children } => {
            &&& kind.admits(children.len())
            &&& forall|j: int| 0 <= j < children.len() ==> (#[trigger] children[j]) < i
        },
    }
}

/// Whether every entry is well formed: the entries hold trees, built from
/// the leaves up, and nothing else.
pub open spec fn entries_well_formed(entries: Seq<NodeData>) -> bool {
    forall|i: int| 0 <= i < entries.len() ==> #[trigger] entry_well_formed(entries, i)
}

/// The shape of the tree below entry `index`.
pub open spec fn shape_at(entries: Seq<NodeData>, index: int) -> Shape
    decreases index,
{
    if 0 <= index < entries.len() {
        match entries[index] {
            NodeData::Token(_) => Shape::leaf(),
            NodeData::Node { kind, children } => Shape {
                kind,
                children: Seq::new(
                    children.len(),
                    |j: int|
                        if 0 <= j < children.len() && children[j] < index {
                            shape_at(entries, children[j] as int)
                        } else {
                            Shape::leaf()
                        },
                ),
            },
        }
    } else {
        Shape::leaf()
    }
}

/// The spans of the children `children` of entry `index`, in order.
pub open spec fn child_spans_at(entries: Seq<NodeData>, index: int, children: Seq<usize>) -> Seq<
    Option<Span>,
>
    decreases index, 0nat,
{
    Seq::new(
        children.len(),
        |j: int|
            if 0 <= j < children.len() && children[j] < index {
                span_at(entries, children[j] as int)
            } else {
                None
            },
    )
}

/// The stretch of source text that the tree below entry `index` covers:
/// where a token stands, and for another node the union of its children's
/// spans.
pub open spec fn span_at(entries: Seq<NodeData>, index: int) -> Option<Span>
    decreases index, 1nat,
{
    if 0 <= index < entries.len() {
        match entries[index] {
            NodeData::Token(token) => Some(token.span_spec()),
            NodeData::Node { kind, children } => span_union_all(
                child_spans_at(entries, index, children),
            ),
        }
    } else {
        None
    }
}

/// The places of `nodes` in their scopes, in order.
pub open spec fn indices_of(nodes: Seq<ArenaNode>) -> Seq<usize> {
    Seq::new(nodes.len(), |i: int| nodes[i].index)
}

/// The handles of scope `scope` for the places `indices`.
pub open spec fn handles_of(scope: u64, indices: Seq<usize>) -> Seq<ArenaNode> {
    Seq::new(indices.len(), |i: int| ArenaNode { scope, index: indices[i] })
}

#[derive(Debug)]
enum Entry {
    Token(Token),
    Node { kind: SyntaxKind, children: Vec<usize> },
}

impl Entry {
    spec fn data(self) -> NodeData {
        match self {
            Entry::Token(token) => NodeData::Token(token),
            Entry::Node { kind, children } => NodeData::Node { kind, children: children@ },
        }
    }
}

/// The region that holds the nodes of one file.
#[derive(Debug)]
pub struct ArenaScope {
    id: u64,
    entries: Vec<Entry>,
}

impl View for ArenaScope {
    type V = Seq<NodeData>;

    closed spec fn view(&self) -> Seq<NodeData> {
        Seq::new(self.entries@.len(), |i: int| self.entries@[i].data())
    }
}

impl ArenaScope {
    /// The scope holds trees, built from the leaves up, and nothing else.
    pub open spec fn well_formed(&self) -> bool {
        entries_well_formed(self@)
    }

    /// The id by which the scope tells its own handles from others.
    pub closed spec fn id_spec(&self) -> u64 {
        self.id
    }

    /// Whether `node` is a node of this scope.
    pub open spec fn holds(&self, node: ArenaNode) -> bool {
        node.scope == self.id_spec() && node.index < self@.len()
    }

    /// Whether all of `nodes` are nodes of this scope.
    pub open spec fn holds_all(&self, nodes: Seq<ArenaNode>) -> bool {
        forall|i: int| 0 <= i < nodes.len() ==> self.holds(#[trigger] nodes[i])
    }

    /// The first of `nodes` that is no node of this scope.
    pub open spec fn first_stranger(&self, nodes: Seq<ArenaNode>) -> Option<ArenaNode>
        decreases nodes.len(),
    {
        if nodes.len() == 0 {
            None
        } else if !self.holds(nodes[0]) {
            Some(nodes[0])
        } else {
            self.first_stranger(nodes.drop_first())
        }
    }

    /// The shape of the tree below `node`.
    pub open spec fn shape_of(&self, node: ArenaNode) -> Shape {
        shape_at(self@, node.index as int)
    }

    /// An empty scope with the id `id`.
    pub fn new(id: u64) -> (scope: ArenaScope)
        ensures
            scope@ == Seq::<NodeData>::empty(),
            scope.id_spec() == id,
            scope.well_formed(),
    {
        let scope = ArenaScope { id, entries: Vec::new() };
        assert(scope@ =~= Seq::<NodeData>::empty());
        scope
    }

    /// The id by which the scope tells its own handles from others.
    #[verifier::when_used_as_spec(id_spec)]
    pub fn id(&self) -> (id: u64)
        ensures
            id == self.id_spec(),
    {
        self.id
    }

    /// The number of nodes held.
    pub fn len(&self) -> (len: usize)
        ensures
            len == self@.len(),
    {
        self.entries.len()
    }

    /// Whether `node` is a node of this scope.
    pub fn owns(&self, node: ArenaNode) -> (owned: bool)
        ensures
            owned == self.holds(node),
    {
        node.scope == self.id && node.index < self.entries.len()
    }

    /// Puts a token into the scope and gives its handle.
    pub fn alloc_token(&mut self, token: Token) -> (node: ArenaNode)
        ensures
            final(self)@ == old(self)@.push(NodeData::Token(token)),
            final(self).id_spec() == old(self).id_spec(),
            node.scope == old(self).id_spec(),
            node.index == old(self)@.len(),
            old(self).well_formed() ==> final(self).well_formed(),
    {
        let ghost before = self@;
        let index = self.entries.len();
        self.entries.push(Entry::Token(token));
        proof {
            assert(self@ =~= before.push(NodeData::Token(token)));
            if entries_well_formed(before) {
                assert forall|i: int| 0 <= i < self@.len() implies #[trigger] entry_well_formed(
                    self@,
                    i,
                ) by {
                    if i < before.len() {
                        assert(entry_well_formed(before, i));
                    }
                }
            }
        }
        ArenaNode { scope: self.id, index }
    }

    /// Puts a node of kind `kind` above `children` into the scope and gives
    /// its handle. Where a child is no node of this scope, nothing is put
    /// in and the first such child is reported.
    pub fn alloc_node(&mut self, kind: SyntaxKind, children: &Vec<ArenaNode>) -> (node: Result<
        ArenaNode,
        LifetimeViolation,
    >)
        requires
            kind.admits(children@.len()),
        ensures
            final(self).id_spec() == old(self).id_spec(),
            old(self).well_formed() ==> final(self).well_formed(),
            match old(self).first_stranger(children@) {
                Some(stranger) => {
                    &&& node == Err::<ArenaNode, LifetimeViolation>(
                        LifetimeViolation { node: stranger },
                    )
                    &&& final(self)@ == old(self)@
                },
                None => {
                    &&& node is Ok
                    &&& node->Ok_0.scope == old(self).id_spec()
                    &&& node->Ok_0.index == old(self)@.len()
                    &&& final(self)@ == old(self)@.push(
                        NodeData::Node { kind, children: indices_of(children@) },
                    )
                },
            },
    {
        let ghost before = self@;
        let mut indices: Vec<usize> = Vec::new();
        let mut i: usize = 0;
        assert(children@.skip(0) =~= children@);
        while i < children.len()
            invariant
                i <= children.len(),
                indices@ == indices_of(children@.take(i as int)),
                before == self@,
                self.first_stranger(children@) == self.first_stranger(children@.skip(i as int)),
                forall|j: int| 0 <= j < i ==> self.holds(#[trigger] children@[j]),
            decreases children.len() - i,
        {
            let child = children[i];
            proof {
                assert(children@.skip(i as int)[0] == children@[i as int]);
                assert(children@.skip(i as int).drop_first() =~= children@.skip(i + 1));
            }
            if !self.owns(child) {
                return Err(LifetimeViolation { node: child });
            }
            indices.push(child.index);
            proof {
                assert(indices@ =~= indices_of(children@.take(i + 1)));
            }
            i += 1;
        }
        proof {
            assert(children@.take(i as int) =~= children@);
            assert(children@.skip(i as int) =~= Seq::empty());
        }
        let index = self.entries.len();
        self.entries.push(Entry::Node { kind, children: indices });
        proof {
            let data = NodeData::Node { kind, children: indices_of(children@) };
            assert(self@ =~= before.push(data));
            if entries_well_formed(before) {
                assert forall|k: int| 0 <= k < self@.len() implies #[trigger] entry_well_formed(
                    self@,
                    k,
                ) by {
                    if k < before.len() {
                        assert(entry_well_formed(before, k));
                    } else {
                        assert forall|j: int| 0 <= j < indices@.len() implies (
                        #[trigger] indices@[j]) < k by {
                            assert(children@[j].index < before.len());
                        }
                    }
                }
            }
        }
        Ok(ArenaNode { scope: self.id, index })
    }

    /// The kind of `node`.
    pub fn kind(&self, node: ArenaNode) -> (kind: Result<SyntaxKind, LifetimeViolation>)
        ensures
            self.holds(node) ==> kind == Ok::<SyntaxKind, LifetimeViolation>(
                self.shape_of(node).kind,
            ),
            !self.holds(node) ==> kind == Err::<SyntaxKind, LifetimeViolation>(
                LifetimeViolation { node },
            ),
    {
        if !self.owns(node) {
            return Err(LifetimeViolation { node });
        }
        assert(self@[node.index as int] == self.entries@[node.index as int].data());
        match &self.entries[node.index] {
            Entry::Token(_) => Ok(SyntaxKind::Token),
            Entry::Node { kind, .. } => Ok(*kind),
        }
    }

    /// The token that `node` holds, if it is a leaf.
    pub fn token(&self, node: ArenaNode) -> (token: Result<Option<&Token>, LifetimeViolation>)
        ensures
            self.holds(node) ==> match self@[node.index as int] {
                NodeData::Token(held) => token == Ok::<Option<&Token>, LifetimeViolation>(
                    Some(&held),
                ),
                NodeData::Node { .. } => token == Ok::<Option<&Token>, LifetimeViolation>(None),
            },
            !self.holds(node) ==> token == Err::<Option<&Token>, LifetimeViolation>(
                LifetimeViolation { node },
            ),
    {
        if !self.owns(node) {
            return Err(LifetimeViolation { node });
        }
        assert(self@[node.index as int] == self.entries@[node.index as int].data());
        match &self.entries[node.index] {
            Entry::Token(token) => Ok(Some(token)),
            Entry::Node { .. } => Ok(None),
        }
    }

    /// The children of `node`, in order; a token has none.
    pub fn children(&self, node: ArenaNode) -> (children: Result<Vec<ArenaNode>, LifetimeViolation>)
        ensures
            self.holds(node) ==> children is Ok && children->Ok_0@ == (match self@[node.index as int] {
                NodeData::Token(_) => Seq::<ArenaNode>::empty(),
                NodeData::Node { children: held, .. } => handles_of(self.id_spec(), held),
            }),
            self.holds(node) && self.well_formed() ==> self.holds_all(children->Ok_0@),
            !self.holds(node) ==> children == Err::<Vec<ArenaNode>, LifetimeViolation>(
                LifetimeViolation { node },
            ),
    {
        if !self.owns(node) {
            return Err(LifetimeViolation { node });
        }
        assert(self@[node.index as int] == self.entries@[node.index as int].data());
        let mut handles: Vec<ArenaNode> = Vec::new();
        match &self.entries[node.index] {
            Entry::Token(_) => {},
            Entry::Node { children, .. } => {
                let mut j: usize = 0;
                while j < children.len()
                    invariant
                        j <= children.len(),
                        handles@ == handles_of(self.id, children@.take(j as int)),
                    decreases children.len() - j,
                {
                    handles.push(ArenaNode { scope: self.id, index: children[j] });
                    proof {
                        assert(handles@ =~= handles_of(self.id, children@.take(j + 1)));
                    }
                    j += 1;
                }
                assert(children@.take(j as int) =~= children@);
                proof {
                    if self.well_formed() {
                        assert(entry_well_formed(self@, node.index as int));
                        assert forall|k: int| 0 <= k < handles@.len() implies self.holds(
                            #[trigger] handles@[k],
                        ) by {
                            assert(children@[k] < node.index);
                        }
                    }
                }
            },
        }
        Ok(handles)
    }

    /// The stretch of source text that the tree below `node` covers, worked
    /// out from the tokens below it.
    pub fn span(&self, node: ArenaNode) -> (span: Result<Option<Span>, LifetimeViolation>)
        ensures
            self.holds(node) ==> span == Ok::<Option<Span>, LifetimeViolation>(
                span_at(self@, node.index as int),
            ),
            !self.holds(node) ==> span == Err::<Option<Span>, LifetimeViolation>(
                LifetimeViolation { node },
            ),
    {
        if !self.owns(node) {
            return Err(LifetimeViolation { node });
        }
        Ok(self.span_below(node.index))
    }

    fn span_below(&self, index: usize) -> (span: Option<Span>)
        requires
            index < self@.len(),
        ensures
            span == span_at(self@, index as int),
        decreases index,
    {
        assert(self@[index as int] == self.entries@[index as int].data());
        match &self.entries[index] {
            Entry::Token(token) => Some(token.span()),
            Entry::Node { children, .. } => {
                let ghost spans = child_spans_at(self@, index as int, children@);
                let mut span: Option<Span> = None;
                let mut j: usize = 0;
                assert(spans.take(0) =~= Seq::empty());
                while j < children.len()
                    invariant
                        j <= children.len(),
                        index < self@.len(),
                        spans == child_spans_at(self@, index as int, children@),
                        span == span_union_all(spans.take(j as int)),
                    decreases children.len() - j,
                {
                    proof {
                        assert(spans.take(j + 1).drop_last() =~= spans.take(j as int));
                    }
                    let below = if children[j] < index {
                        self.span_below(children[j])
                    } else {
                        None
                    };
                    span = union_spans(span, below);
                    j += 1;
                }
                assert(spans.take(j as int) =~= spans);
                span
            },
        }
    }
}

} // verus!
