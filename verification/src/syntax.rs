//! What every representation of a syntax tree shares: tokens, source
//! spans, the kinds of node with the number of children each takes, and the
//! shape of a tree.

use vstd::prelude::*;

verus! {

/// A stretch of the source text, from the byte at `start` up to, not
/// including, the byte at `end`.
#[derive(Clone, Copy, Debug, PartialEq, Eq, Structural)]
pub struct Span {
    pub start: usize,
    pub end: usize,
}

/// The smallest span that covers both `a` and `b`.
pub open spec fn span_cover(a: Span, b: Span) -> Span {
    Span {
        start: if a.start <= b.start {
            a.start
        } else {
            b.start
        },
        end: if a.end >= b.end {
            a.end
        } else {
            b.end
        },
    }
}

/// The union of two spans either of which may be absent.
pub open spec fn span_union(a: Option<Span>, b: Option<Span>) -> Option<Span> {
    match (a, b) {
        (None, _) => b,
        (_, None) => a,
        (Some(a), Some(b)) => Some(span_cover(a, b)),
    }
}

/// The union of a sequence of spans, `None` where none is present.
pub open spec fn span_union_all(spans: Seq<Option<Span>>) -> Option<Span>
    decreases spans.len(),
{
    if spans.len() == 0 {
        None
    } else {
        span_union(span_union_all(spans.drop_last()), spans.last())
    }
}

/// The union of two spans either of which may be absent.
pub fn union_spans(a: Option<Span>, b: Option<Span>) -> (union: Option<Span>)
    ensures
        union == span_union(a, b),
{
    match (a, b) {
        (None, _) => b,
        (_, None) => a,
        (Some(a), Some(b)) => Some(
            Span {
                start: if a.start <= b.start {
                    a.start
                } else {
                    b.start
                },
                end: if a.end >= b.end {
                    a.end
                } else {
                    b.end
                },
            },
        ),
    }
}

/// Whether `a` and `b` are the same span, or both absent.
pub fn same_span(a: Option<Span>, b: Option<Span>) -> (same: bool)
    ensures
        same <==> a == b,
{
    match (a, b) {
        (None, None) => true,
        (Some(a), Some(b)) => a.start == b.start && a.end == b.end,
        _ => false,
    }
}

/// The kind that the token source gave a token, as its number.
#[derive(Clone, Copy, Debug, PartialEq, Eq, Structural)]
pub struct TokenKind(pub u16);

/// A token of the source text: its kind, its text, and where it stands.
#[derive(Debug, PartialEq, Eq)]
pub struct Token {
    kind: TokenKind,
    text: String,
    offset: usize,
    width: usize,
}

impl Clone for Token {
    fn clone(&self) -> (copy: Token)
        ensures
            copy == *self,
    {
        proof {
            use_type_invariant(self);
        }
        Token { kind: self.kind, text: self.text.clone(), offset: self.offset, width: self.width }
    }
}

impl Token {
    /// The end of the token is an offset too.
    #[verifier::type_invariant]
    spec fn in_bounds(self) -> bool {
        self.offset + self.width <= usize::MAX
    }

    /// The kind that the token source gave the token.
    pub closed spec fn kind_spec(&self) -> TokenKind {
        self.kind
    }

    /// The text of the token.
    pub closed spec fn text_spec(&self) -> Seq<char> {
        self.text@
    }

    /// The byte at which the token begins.
    pub closed spec fn offset_spec(&self) -> usize {
        self.offset
    }

    /// The number of bytes that the token takes.
    pub closed spec fn width_spec(&self) -> usize {
        self.width
    }

    /// The stretch of source text that the token covers.
    pub open spec fn span_spec(&self) -> Span {
        Span { start: self.offset_spec(), end: (self.offset_spec() + self.width_spec()) as usize }
    }

    /// A token of kind `kind` with text `text`, `width` bytes wide, at byte
    /// `offset`; `None` where the token would end beyond the largest offset.
    pub fn new(kind: TokenKind, text: String, offset: usize, width: usize) -> (token: Option<Token>)
        ensures
            token is Some <==> offset + width <= usize::MAX,
            token matches Some(t) ==> t.kind_spec() == kind && t.text_spec() == text@
                && t.offset_spec() == offset && t.width_spec() == width,
    {
        if width <= usize::MAX - offset {
            Some(Token { kind, text, offset, width })
        } else {
            None
        }
    }

    /// The kind that the token source gave the token.
    #[verifier::when_used_as_spec(kind_spec)]
    pub fn kind(&self) -> (kind: TokenKind)
        ensures
            kind == self.kind_spec(),
    {
        self.kind
    }

    /// The text of the token.
    pub fn text(&self) -> (text: &str)
        ensures
            text@ == self.text_spec(),
    {
        self.text.as_str()
    }

    /// The byte at which the token begins.
    #[verifier::when_used_as_spec(offset_spec)]
    pub fn offset(&self) -> (offset: usize)
        ensures
            offset == self.offset_spec(),
    {
        self.offset
    }

    /// The number of bytes that the token takes.
    #[verifier::when_used_as_spec(width_spec)]
    pub fn width(&self) -> (width: usize)
        ensures
            width == self.width_spec(),
    {
        self.width
    }

    /// The stretch of source text that the token covers.
    #[verifier::when_used_as_spec(span_spec)]
    pub fn span(&self) -> (span: Span)
        ensures
            span == self.span_spec(),
            span.start == self.offset_spec(),
            span.end == self.offset_spec() + self.width_spec(),
    {
        proof {
            use_type_invariant(self);
        }
        Span { start: self.offset, end: self.offset + self.width }
    }
}

/// The kinds of node. A token is a leaf; every other kind is made from
/// children, as many as [`SyntaxKind::arity`] says.
#[derive(Clone, Copy, Debug, PartialEq, Eq, Structural)]
pub enum SyntaxKind {
    Missing,
    Token,
    SyntaxList,
    ErrorSyntax,
    EndOfFile,
    Script,
    QualifiedName,
    SimpleTypeSpecifier,
    LiteralExpression,
    NamespaceDeclaration,
    NamespaceDeclarationHeader,
    NamespaceBody,
    NamespaceEmptyBody,
    NamespaceUseDeclaration,
    NamespaceUseClause,
    PropertyDeclaration,
    PropertyDeclarator,
    SimpleInitializer,
    OldAttributeSpecification,
    ConstructorCall,
    FunctionCallExpression,
    ListItem,
}

impl SyntaxKind {
    /// The number of children that a node of this kind is made from; `None`
    /// for a token, which is made from no nodes, and for a list, which takes
    /// any number but zero.
    pub open spec fn arity(self) -> Option<nat> {
        match self {
            SyntaxKind::Token | SyntaxKind::SyntaxList => None,
            SyntaxKind::Missing => Some(0),
            SyntaxKind::ErrorSyntax
            | SyntaxKind::EndOfFile
            | SyntaxKind::Script
            | SyntaxKind::QualifiedName
            | SyntaxKind::SimpleTypeSpecifier
            | SyntaxKind::LiteralExpression
            | SyntaxKind::NamespaceEmptyBody => Some(1),
            SyntaxKind::NamespaceDeclaration
            | SyntaxKind::NamespaceDeclarationHeader
            | SyntaxKind::PropertyDeclarator
            | SyntaxKind::SimpleInitializer
            | SyntaxKind::ListItem => Some(2),
            SyntaxKind::NamespaceBody | SyntaxKind::OldAttributeSpecification => Some(3),
            SyntaxKind::NamespaceUseDeclaration
            | SyntaxKind::NamespaceUseClause
            | SyntaxKind::ConstructorCall => Some(4),
            SyntaxKind::PropertyDeclaration | SyntaxKind::FunctionCallExpression => Some(5),
        }
    }

    /// Whether a node of this kind can be made from `count` children.
    pub open spec fn admits(self, count: nat) -> bool {
        match self {
            SyntaxKind::Token => false,
            SyntaxKind::SyntaxList => count >= 1,
            _ => self.arity() == Some(count),
        }
    }

    /// Whether a node of this kind can be made from `count` children.
    pub fn accepts(self, count: usize) -> (accepted: bool)
        ensures
            accepted == self.admits(count as nat),
    {
        match self {
            SyntaxKind::Token => false,
            SyntaxKind::SyntaxList => count >= 1,
            SyntaxKind::Missing => count == 0,
            SyntaxKind::ErrorSyntax
            | SyntaxKind::EndOfFile
            | SyntaxKind::Script
            | SyntaxKind::QualifiedName
            | SyntaxKind::SimpleTypeSpecifier
            | SyntaxKind::LiteralExpression
            | SyntaxKind::NamespaceEmptyBody => count == 1,
            SyntaxKind::NamespaceDeclaration
            | SyntaxKind::NamespaceDeclarationHeader
            | SyntaxKind::PropertyDeclarator
            | SyntaxKind::SimpleInitializer
            | SyntaxKind::ListItem => count == 2,
            SyntaxKind::NamespaceBody | SyntaxKind::OldAttributeSpecification => count == 3,
            SyntaxKind::NamespaceUseDeclaration
            | SyntaxKind::NamespaceUseClause
            | SyntaxKind::ConstructorCall => count == 4,
            SyntaxKind::PropertyDeclaration | SyntaxKind::FunctionCallExpression => count == 5,
        }
    }
}

/// The shape of a tree: the kind of its root and the shapes of the root's
/// children, in order. Two trees of one shape have the same kinds in the
/// same places and the same number of children everywhere.
pub struct Shape {
    pub kind: SyntaxKind,
    pub children: Seq<Shape>,
}

impl Shape {
    /// The shape of a token.
    pub open spec fn leaf() -> Shape {
        Shape { kind: SyntaxKind::Token, children: Seq::empty() }
    }
}

} // verus!
