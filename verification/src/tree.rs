//! The concrete parse tree: what the grammar recognised, before any of it
//! is given a meaning.

use vstd::prelude::*;
use vstd::slice::slice_subrange;

verus! {

/// A half-open range of byte offsets into the source text.
#[derive(Debug, Clone, Copy, PartialEq, Eq, Structural)]
pub struct Span {
    pub start: usize,
    pub end: usize,
}

impl Span {
    /// The bytes of `source` that the span covers; none where the span
    /// does not lie within `source`.
    pub open spec fn text(self, source: Seq<u8>) -> Seq<u8> {
        if self.start <= self.end <= source.len() {
            source.subrange(self.start as int, self.end as int)
        } else {
            Seq::empty()
        }
    }

    /// The bytes of `source` that the span covers.
    pub fn slice<'a>(&self, source: &'a [u8]) -> (r: &'a [u8])
        ensures
            r@ == self.text(source@),
    {
        if self.start <= self.end && self.end <= source.len() {
            slice_subrange(source, self.start, self.end)
        } else {
            slice_subrange(source, 0, 0)
        }
    }
}

/// One node of the parse tree. Each variant is a rule of the grammar and
/// holds the span it matched, then the nodes matched inside it.
#[derive(Debug, PartialEq, Eq)]
pub enum Node {
    /// An expression: one of `Calc`, `Call`, `Input`, `Num`.
    Root(Span, Box<Node>),
    /// Left operand, operator, right operand.
    Calc(Span, Box<Node>, Box<Node>, Box<Node>),
    /// An operator token.
    Op(Span),
    /// Function name, argument.
    Call(Span, Box<Node>, Box<Node>),
    /// A name token.
    Ident(Span),
    /// `$` and an index.
    Input(Span),
    /// A number literal.
    Num(Span),
}

impl Node {
    /// The span that the node matched.
    pub open spec fn span(self) -> Span {
        match self {
            Node::Root(s, _) => s,
            Node::Calc(s, _, _, _) => s,
            Node::Op(s) => s,
            Node::Call(s, _, _) => s,
            Node::Ident(s) => s,
            Node::Input(s) => s,
            Node::Num(s) => s,
        }
    }

    /// The span that the node matched.
    pub fn get_span(&self) -> (r: Span)
        ensures
            r == self.span(),
    {
        match self {
            Node::Root(s, _) => *s,
            Node::Calc(s, _, _, _) => *s,
            Node::Op(s) => *s,
            Node::Call(s, _, _) => *s,
            Node::Ident(s) => *s,
            Node::Input(s) => *s,
            Node::Num(s) => *s,
        }
    }
}

} // verus!
