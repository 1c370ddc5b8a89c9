//! The positioned representation of a syntax tree: every node owns its
//! children and records the stretch of source text that they cover.

use crate::syntax::{
    same_span, span_union_all, union_spans, Shape, Span, SyntaxKind, Token,
};
use vstd::prelude::*;

verus! {

/// A tree whose nodes record their source spans.
#[derive(Debug)]
pub enum PositionedSyntax {
    Token(Token),
    Node { kind: SyntaxKind, span: Option<Span>, children: Vec<PositionedSyntax> },
}

/// The spans of `nodes`, in order.
pub open spec fn spans_of(nodes: Seq<PositionedSyntax>) -> Seq<Option<Span>> {
    Seq::new(nodes.len(), |i: int| nodes[i].span_spec())
}

/// The union of the spans of `nodes`.
pub open spec fn covering(nodes: Seq<PositionedSyntax>) -> Option<Span> {
    span_union_all(spans_of(nodes))
}

impl PositionedSyntax {
    /// The kind of the node; a leaf is of the kind of tokens.
    pub open spec fn kind_spec(&self) -> SyntaxKind {
        match self {
            PositionedSyntax::Token(_) => SyntaxKind::Token,
            PositionedSyntax::Node { kind, .. } => *kind,
        }
    }

    /// The span of a token is where the token stands; the span of another
    /// node is the one recorded in it.
    pub open spec fn span_spec(&self) -> Option<Span> {
        match self {
            PositionedSyntax::Token(token) => Some(token.span_spec()),
            PositionedSyntax::Node { span, .. } => *span,
        }
    }

    /// The children of the node, in order; a leaf has none.
    pub open spec fn children_spec(&self) -> Seq<PositionedSyntax> {
        match self {
            PositionedSyntax::Token(_) => Seq::empty(),
            PositionedSyntax::Node { children, .. } => children@,
        }
    }

    /// The shape of the tree below this node.
    pub open spec fn shape(&self) -> Shape
        decreases self,
    {
        match self {
            PositionedSyntax::Token(_) => Shape::leaf(),
            PositionedSyntax::Node { kind, children, .. } => Shape {
                kind: *kind,
                children: Seq::new(
                    children@.len(),
                    |i: int|
                        if 0 <= i < children@.len() {
                            children@[i].shape()
                        } else {
                            Shape::leaf()
                        },
                ),
            },
        }
    }

    /// Every node below and including this one has as many children as its
    /// kind takes, and records the union of its children's spans.
    pub open spec fn well_formed(&self) -> bool
        decreases self,
    {
        match self {
            PositionedSyntax::Token(_) => true,
            PositionedSyntax::Node { kind, span, children } => {
                &&& kind.admits(children@.len())
                &&& *span == covering(children@)
                &&& forall|i: int| 0 <= i < children@.len() ==> children@[i].well_formed()
            },
        }
    }

    /// The leaf that holds `token`.
    pub fn from_token(token: Token) -> (node: PositionedSyntax)
        ensures
            node == PositionedSyntax::Token(token),
    {
        PositionedSyntax::Token(token)
    }

    /// The node of kind `kind` above `children`, with the union of their
    /// spans as its span.
    pub fn from_children(kind: SyntaxKind, children: Vec<PositionedSyntax>) -> (node: PositionedSyntax)
        requires
            kind.admits(children@.len()),
        ensures
            node == (PositionedSyntax::Node { kind, span: covering(children@), children }),
    {
        let mut span: Option<Span> = None;
        let mut i: usize = 0;
        assert(spans_of(children@).take(0) =~= Seq::empty());
        while i < children.len()
            invariant
                i <= children.len(),
                span == span_union_all(spans_of(children@).take(i as int)),
            decreases children.len() - i,
        {
            proof {
                let spans = spans_of(children@);
                assert(spans.take(i + 1).drop_last() =~= spans.take(i as int));
            }
            span = union_spans(span, children[i].span());
            i += 1;
        }
        assert(spans_of(children@).take(i as int) =~= spans_of(children@));
        PositionedSyntax::Node { kind, span, children }
    }

    /// Whether the tree is well formed.
    #[verifier::loop_isolation(false)]
    pub fn is_well_formed(&self) -> (ok: bool)
        ensures
            ok == self.well_formed(),
        decreases self,
    {
        match self {
            PositionedSyntax::Token(_) => true,
            PositionedSyntax::Node { kind, span, children } => {
                if !kind.accepts(children.len()) {
                    return false;
                }
                let mut cover: Option<Span> = None;
                let mut i: usize = 0;
                assert(spans_of(children@).take(0) =~= Seq::empty());
                while i < children.len()
                    invariant
                        i <= children.len(),
                        cover == span_union_all(spans_of(children@).take(i as int)),
                        forall|j: int| 0 <= j < i ==> (#[trigger] children@[j]).well_formed(),
                        forall|j: int|
                            0 <= j < children@.len() ==> decreases_to!(self => #[trigger] children@[j]),
                    decreases children.len() - i,
                {
                    if !children[i].is_well_formed() {
                        return false;
                    }
                    proof {
                        let spans = spans_of(children@);
                        assert(spans.take(i + 1).drop_last() =~= spans.take(i as int));
                    }
                    cover = union_spans(cover, children[i].span());
                    i += 1;
                }
                assert(spans_of(children@).take(i as int) =~= spans_of(children@));
                same_span(cover, *span)
            },
        }
    }

    /// The kind of the node; a leaf is of the kind of tokens.
    #[verifier::when_used_as_spec(kind_spec)]
    pub fn kind(&self) -> (kind: SyntaxKind)
        ensures
            kind == self.kind_spec(),
    {
        match self {
            PositionedSyntax::Token(_) => SyntaxKind::Token,
            PositionedSyntax::Node { kind, .. } => *kind,
        }
    }

    /// The stretch of source text that the node covers; `None` for a node
    /// that covers none.
    #[verifier::when_used_as_spec(span_spec)]
    pub fn span(&self) -> (span: Option<Span>)
        ensures
            span == self.span_spec(),
    {
        match self {
            PositionedSyntax::Token(token) => Some(token.span()),
            PositionedSyntax::Node { span, .. } => *span,
        }
    }

    /// The children of the node, in order; a token has none.
    pub fn children(&self) -> (children: &[PositionedSyntax])
        ensures
            children@ == self.children_spec(),
    {
        match self {
            PositionedSyntax::Token(_) => &[],
            PositionedSyntax::Node { children, .. } => children.as_slice(),
        }
    }

    /// The token that a leaf holds.
    pub fn token(&self) -> (token: Option<&Token>)
        ensures
            match *self {
                PositionedSyntax::Token(held) => token == Some(&held),
                PositionedSyntax::Node { .. } => token is None,
            },
    {
        match self {
            PositionedSyntax::Token(token) => Some(token),
            PositionedSyntax::Node { .. } => None,
        }
    }
}

} // verus!
