//! The two representations of a syntax tree side by side. A positioned tree
//! and a node of an arena scope mirror each other when they hold the same
//! tokens under the same kinds in the same places. The same calls of the
//! smart constructors give trees that mirror each other, and trees that
//! mirror each other have the same shape and cover the same stretch of
//! source text: what the arena works out from its tokens is what the
//! positioned tree records.

use crate::arena_syntax::{child_spans_at, indices_of, shape_at, span_at, ArenaNode, ArenaScope, NodeData};
use crate::positioned_syntax::{spans_of, PositionedSyntax};
use crate::syntax::{SyntaxKind, Token};
use crate::syntax_smart_constructors::SyntaxType;
use vstd::prelude::*;

verus! {

/// Whether `tree` and the entry `index` of `entries` hold the same tokens
/// under the same kinds in the same places.
pub open spec fn mirrors(tree: PositionedSyntax, entries: Seq<NodeData>, index: int) -> bool
    decreases tree,
{
    &&& 0 <= index < entries.len()
    &&& match tree {
        PositionedSyntax::Token(token) => entries[index] == NodeData::Token(token),
        PositionedSyntax::Node { kind, span, children } => match entries[index] {
            NodeData::Token(_) => false,
            NodeData::Node { kind: held, children: places } => {
                &&& held == kind
                &&& places.len() == children@.len()
                &&& forall|j: int|
                    0 <= j < children@.len() ==> (#[trigger] places[j]) < index && mirrors(
                        children@[j],
                        entries,
                        places[j] as int,
                    )
            },
        },
    }
}

/// Whether each of `trees` mirrors the node of `handles` at its place.
pub open spec fn mirror_all(
    trees: Seq<PositionedSyntax>,
    entries: Seq<NodeData>,
    handles: Seq<ArenaNode>,
) -> bool {
    &&& trees.len() == handles.len()
    &&& forall|j: int|
        0 <= j < trees.len() ==> mirrors(#[trigger] trees[j], entries, handles[j].index as int)
}

/// Trees that mirror each other have the same shape, and where the
/// positioned tree is well formed, the span that it records is the span
/// that the arena works out.
pub proof fn lemma_mirror_agrees(tree: PositionedSyntax, entries: Seq<NodeData>, index: int)
    requires
        mirrors(tree, entries, index),
    ensures
        shape_at(entries, index) == tree.shape(),
        tree.well_formed() ==> span_at(entries, index) == tree.span_spec(),
    decreases tree,
{
    match tree {
        PositionedSyntax::Token(token) => {},
        PositionedSyntax::Node { kind, span, children } => {
            let places = entries[index]->children;
            assert forall|j: int| 0 <= j < children@.len() implies shape_at(
                entries,
                places[j] as int,
            ) == children@[j].shape() && (children@[j].well_formed() ==> span_at(
                entries,
                places[j] as int,
            ) == children@[j].span_spec()) by {
                assert(places[j] < index);
                lemma_mirror_agrees(children@[j], entries, places[j] as int);
            }
            assert(shape_at(entries, index).children =~= tree.shape().children);
            if tree.well_formed() {
                assert(child_spans_at(entries, index, places) =~= spans_of(children@)) by {
                    assert forall|j: int| 0 <= j < children@.len() implies child_spans_at(
                        entries,
                        index,
                        places,
                    )[j] == spans_of(children@)[j] by {
                        assert(places[j] < index);
                        assert(children@[j].well_formed());
                    }
                }
            }
        },
    }
}

/// Trees that mirror each other go on doing so when the scope takes one
/// more entry.
pub proof fn lemma_mirror_kept(
    tree: PositionedSyntax,
    entries: Seq<NodeData>,
    index: int,
    entry: NodeData,
)
    requires
        mirrors(tree, entries, index),
    ensures
        mirrors(tree, entries.push(entry), index),
    decreases tree,
{
    let after = entries.push(entry);
    assert(after[index] == entries[index]);
    match tree {
        PositionedSyntax::Token(token) => {},
        PositionedSyntax::Node { kind, span, children } => {
            let places = entries[index]->children;
            assert forall|j: int| 0 <= j < children@.len() implies (#[trigger] places[j]) < index
                && mirrors(children@[j], after, places[j] as int) by {
                lemma_mirror_kept(children@[j], entries, places[j] as int, entry);
            }
        },
    }
}

/// Leaves made for the same token in the two representations mirror each
/// other.
pub proof fn lemma_leaves_mirror(
    tree: PositionedSyntax,
    handle: ArenaNode,
    after: ArenaScope,
    before: ArenaScope,
    token: Token,
)
    requires
        PositionedSyntax::is_token(&tree, &(), &(), token),
        ArenaNode::is_token(&handle, &after, &before, token),
    ensures
        mirrors(tree, after@, handle.index as int),
{
}

/// Nodes of one kind made in the two representations from children that
/// mirror each other mirror each other.
pub proof fn lemma_made_nodes_mirror(
    tree: PositionedSyntax,
    trees: Seq<PositionedSyntax>,
    handle: ArenaNode,
    handles: Seq<ArenaNode>,
    after: ArenaScope,
    before: ArenaScope,
    kind: SyntaxKind,
)
    requires
        kind.admits(trees.len()),
        before.holds_all(handles),
        mirror_all(trees, before@, handles),
        PositionedSyntax::is_made(&tree, &(), &(), kind, trees),
        ArenaNode::is_made(&handle, &after, &before, kind, handles),
    ensures
        mirrors(tree, after@, handle.index as int),
        forall|other: PositionedSyntax, place: int|
            mirrors(other, before@, place) ==> mirrors(other, after@, place),
{
    let entry = NodeData::Node { kind, children: indices_of(handles) };
    let index = handle.index as int;
    assert(after@[index] == entry);
    assert forall|j: int| 0 <= j < trees.len() implies (#[trigger] indices_of(handles)[j]) < index
        && mirrors(trees[j], after@, indices_of(handles)[j] as int) by {
        assert(before.holds(handles[j]));
        assert(mirrors(trees[j], before@, handles[j].index as int));
        lemma_mirror_kept(trees[j], before@, handles[j].index as int, entry);
    }
    assert forall|other: PositionedSyntax, place: int|
        mirrors(other, before@, place) implies mirrors(other, after@, place) by {
        lemma_mirror_kept(other, before@, place, entry);
    }
}

} // verus!
