//! From source text to `Expr`: the parse tree is converted node by node,
//! each rule of the grammar to one constructor of `Expr`.

use vstd::prelude::*;
use vstd::slice::slice_subrange;
use vstd::string::StringSliceAdditionalSpecFns;
use crate::expr::{BinOp, BuiltInFunc, Expr, InputRangeError, INPUT_SLOTS};
use crate::literal::{i64_of, parse_i64, parse_u64, u64_of};
use crate::grammar::{
    calc_at, call_at, is_letter, lemma_run_end, op_at, operand_at, parse_tree, recognize,
    root_at, run_end, tail_at, Class, OPEN,
};
use crate::tree::{Node, Span};

verus! {

/// Why a source text is not an expression.
#[derive(Debug, Clone, Copy, PartialEq, Eq, Structural)]
pub enum ParseError {
    /// The text does not follow the grammar. `at` is the byte offset at
    /// which it stops doing so: where no rule could go on, or the first
    /// byte left over after an expression.
    Syntax { at: usize },
    /// The text of a number or of an input index is not an integer of
    /// the type it must have.
    InvalidLiteral(Span),
    /// An operator or a function name that the language does not have.
    UnknownSymbol(Span),
    /// A node that cannot stand for an expression.
    UnknownRule(Span),
    /// An input index that names no argument slot.
    InputRange { error: InputRangeError, span: Span },
}

/// The text of an `Input` node after its leading `$`.
pub open spec fn index_text(span: Span, source: Seq<u8>) -> Seq<u8> {
    let text = span.text(source);
    if text.len() > 0 {
        text.skip(1)
    } else {
        text
    }
}

/// The expression that a parse tree stands for.
///
/// Errors come in the order in which the tree is walked: in a `Calc` the
/// left operand, then the operator, then the right operand; in a `Call`
/// the argument, then the name.
pub open spec fn convert(node: Node, source: Seq<u8>) -> Result<Expr, ParseError>
    decreases node,
{
    match node {
        Node::Root(_, inner) => convert(*inner, source),
        Node::Num(span) => match i64_of(span.text(source)) {
            Some(n) => Ok(Expr::Num(n)),
            None => Err(ParseError::InvalidLiteral(span)),
        },
        Node::Calc(_, lhs, op, rhs) => match convert(*lhs, source) {
            Err(e) => Err(e),
            Ok(l) => match BinOp::from_text(op.span().text(source)) {
                None => Err(ParseError::UnknownSymbol(op.span())),
                Some(o) => match convert(*rhs, source) {
                    Err(e) => Err(e),
                    Ok(r) => Ok(Expr::BinOp(o, Box::new(l), Box::new(r))),
                },
            },
        },
        Node::Call(_, name, arg) => match convert(*arg, source) {
            Err(e) => Err(e),
            Ok(a) => match BuiltInFunc::from_text(name.span().text(source)) {
                None => Err(ParseError::UnknownSymbol(name.span())),
                Some(f) => Ok(Expr::Call(f, Box::new(a))),
            },
        },
        Node::Input(span) => match u64_of(index_text(span, source)) {
            None => Err(ParseError::InvalidLiteral(span)),
            Some(index) => if index < INPUT_SLOTS {
                Ok(Expr::Input(index))
            } else {
                Err(ParseError::InputRange { error: InputRangeError { index }, span })
            },
        },
        Node::Op(span) => Err(ParseError::UnknownRule(span)),
        Node::Ident(span) => Err(ParseError::UnknownRule(span)),
    }
}

/// Convert the parse tree into Expr
pub fn convert_rule_to_expr(rule: &Node, source: &[u8]) -> (r: Result<Expr, ParseError>)
    ensures
        r == convert(*rule, source@),
    decreases rule,
{
    // Just recursively convert the parse tree into Expr
    match rule {
        Node::Root(_, inner) => convert_rule_to_expr(inner, source),
        Node::Num(span) => {
            match parse_i64(span.slice(source)) {
                Some(n) => Ok(Expr::Num(n)),
                None => Err(ParseError::InvalidLiteral(*span)),
            }
        },
        Node::Calc(_, lhs, op, rhs) => {
            let lhs = match convert_rule_to_expr(lhs, source) {
                Ok(e) => e,
                Err(e) => { return Err(e); },
            };
            let op_span = op.get_span();
            let op = match BinOp::from_bytes(op_span.slice(source)) {
                Some(o) => o,
                None => { return Err(ParseError::UnknownSymbol(op_span)); },
            };
            let rhs = match convert_rule_to_expr(rhs, source) {
                Ok(e) => e,
                Err(e) => { return Err(e); },
            };
            Ok(Expr::BinOp(op, Box::new(lhs), Box::new(rhs)))
        },
        Node::Call(_, name, arg) => {
            let arg = match convert_rule_to_expr(arg, source) {
                Ok(e) => e,
                Err(e) => { return Err(e); },
            };
            let name_span = name.get_span();
            match BuiltInFunc::from_bytes(name_span.slice(source)) {
                Some(func) => Ok(Expr::Call(func, Box::new(arg))),
                None => Err(ParseError::UnknownSymbol(name_span)),
            }
        },
        Node::Input(span) => {
            // Trim first '$' and parse index integer
            let text = span.slice(source);
            let digits = if text.len() > 0 {
                slice_subrange(text, 1, text.len())
            } else {
                text
            };
            match parse_u64(digits) {
                None => Err(ParseError::InvalidLiteral(*span)),
                Some(index) => {
                    if index < INPUT_SLOTS {
                        Ok(Expr::Input(index))
                    } else {
                        Err(ParseError::InputRange { error: InputRangeError { index }, span: *span })
                    }
                },
            }
        },
        Node::Op(span) => Err(ParseError::UnknownRule(*span)),
        Node::Ident(span) => Err(ParseError::UnknownRule(*span)),
    }
}

/// The expression that a source text denotes: the tree that the grammar
/// recognises in it, converted.
pub open spec fn parse(source: Seq<u8>) -> Result<Expr, ParseError> {
    match recognize(source) {
        Err(at) => Err(ParseError::Syntax { at: at as usize }),
        Ok(root) => convert(root, source),
    }
}

/// Parse the input string into Expr
pub fn parse_expr(input: &str) -> (r: Result<Expr, ParseError>)
    ensures
        r == parse(input.spec_bytes()),
        r matches Ok(expr) ==> expr.inputs_in_range(),
        !(r matches Err(ParseError::UnknownRule(_))),
{
    let source = input.as_bytes();
    proof {
        lemma_parse_in_range(source@);
        lemma_parse_knows_every_rule(source@);
    }
    match parse_tree(source) {
        Err(at) => Err(ParseError::Syntax { at }),
        Ok(root) => convert_rule_to_expr(&root, source),
    }
}

/// The tree has the shape that the conversion expects: expressions
/// where expressions belong, and an operator of the language in every
/// `Calc`.
pub open spec fn convertible(node: Node, source: Seq<u8>) -> bool
    decreases node,
{
    match node {
        Node::Root(_, inner) => convertible(*inner, source),
        Node::Calc(_, lhs, op, rhs) => {
            &&& convertible(*lhs, source)
            &&& convertible(*rhs, source)
            &&& BinOp::from_text(op.span().text(source)) is Some
        },
        Node::Call(_, _, arg) => convertible(*arg, source),
        Node::Input(_) => true,
        Node::Num(_) => true,
        Node::Op(_) => false,
        Node::Ident(_) => false,
    }
}

/// The conversion of a tree of that shape finds no unknown rule.
pub proof fn lemma_convertible(node: Node, source: Seq<u8>)
    requires
        convertible(node, source),
    ensures
        !(convert(node, source) matches Err(ParseError::UnknownRule(_))),
    decreases node,
{
    match node {
        Node::Root(_, inner) => {
            lemma_convertible(*inner, source);
        },
        Node::Calc(_, lhs, _, rhs) => {
            lemma_convertible(*lhs, source);
            lemma_convertible(*rhs, source);
        },
        Node::Call(_, _, arg) => {
            lemma_convertible(*arg, source);
        },
        _ => {},
    }
}

/// An operator that the grammar recognises is one of the language.
pub proof fn lemma_op_is_known(s: Seq<u8>, i: int)
    requires
        0 <= i,
        s.len() <= usize::MAX,
    ensures
        op_at(s, i) matches Ok((op, _)) ==> BinOp::from_text(op.span().text(s)) is Some,
{
    if let Ok((op, e)) = op_at(s, i) {
        let text = op.span().text(s);
        assert(text =~= s.subrange(i, e));
        if e == i + 2 {
            assert(text =~= BinOp::Eq.text());
        } else {
            assert(text =~= seq![s[i]]);
            assert(text =~= BinOp::Add.text() || text =~= BinOp::Sub.text() || text
                =~= BinOp::Mul.text() || text =~= BinOp::Div.text());
        }
    }
}

/// What `root` recognises has the shape that the conversion expects.
pub proof fn lemma_root_converts(s: Seq<u8>, i: int)
    requires
        0 <= i <= s.len() <= usize::MAX,
    ensures
        root_at(s, i) matches Ok((node, _)) ==> convertible(node, s),
    decreases s.len() - i, 4int,
{
    reveal_with_fuel(convertible, 2);
    lemma_calc_converts(s, i);
    lemma_call_converts(s, i);
}

/// What `calc` recognises has the shape that the conversion expects.
pub proof fn lemma_calc_converts(s: Seq<u8>, i: int)
    requires
        0 <= i <= s.len() <= usize::MAX,
    ensures
        calc_at(s, i) matches Ok((node, _)) ==> convertible(node, s),
    decreases s.len() - i, 3int,
{
    lemma_operand_converts(s, i);
    if let Ok((_, e)) = operand_at(s, i) {
        if i < e <= s.len() {
            lemma_tail_converts(s, e);
        }
    }
}

/// What follows the left operand of a `calc` has that shape too.
pub proof fn lemma_tail_converts(s: Seq<u8>, e: int)
    requires
        0 <= e <= s.len() <= usize::MAX,
    ensures
        tail_at(s, e) matches Ok((op, rhs, _)) ==> convertible(rhs, s) && BinOp::from_text(
            op.span().text(s),
        ) is Some,
    decreases s.len() - e, 2int,
{
    lemma_run_end(s, e, Class::Blank);
    let j = run_end(s, e, Class::Blank);
    lemma_op_is_known(s, j);
    if let Ok((_, e2)) = op_at(s, j) {
        lemma_run_end(s, e2, Class::Blank);
        lemma_operand_converts(s, run_end(s, e2, Class::Blank));
    }
}

/// What `operand` recognises has the shape that the conversion expects.
pub proof fn lemma_operand_converts(s: Seq<u8>, i: int)
    requires
        0 <= i <= s.len() <= usize::MAX,
    ensures
        operand_at(s, i) matches Ok((node, _)) ==> convertible(node, s),
    decreases s.len() - i, 1int,
{
    if i < s.len() && s[i] == OPEN {
        lemma_run_end(s, i + 1, Class::Blank);
        lemma_root_converts(s, run_end(s, i + 1, Class::Blank));
    } else {
        lemma_call_converts(s, i);
    }
}

/// What `call` recognises has the shape that the conversion expects.
pub proof fn lemma_call_converts(s: Seq<u8>, i: int)
    requires
        0 <= i <= s.len() <= usize::MAX,
    ensures
        call_at(s, i) matches Ok((node, _)) ==> convertible(node, s),
    decreases s.len() - i, 0int,
{
    if i < s.len() && is_letter(s[i]) {
        lemma_run_end(s, i, Class::Name);
        let e = run_end(s, i, Class::Name);
        lemma_run_end(s, e, Class::Blank);
        let j = run_end(s, e, Class::Blank);
        if j < s.len() && s[j] == OPEN {
            lemma_run_end(s, j + 1, Class::Blank);
            lemma_root_converts(s, run_end(s, j + 1, Class::Blank));
        }
    }
}

/// The grammar and the conversion agree on the rules: no text is
/// refused for an unknown rule.
pub proof fn lemma_parse_knows_every_rule(source: Seq<u8>)
    requires
        source.len() <= usize::MAX,
    ensures
        !(parse(source) matches Err(ParseError::UnknownRule(_))),
{
    lemma_run_end(source, 0, Class::Blank);
    lemma_root_converts(source, run_end(source, 0, Class::Blank));
    if let Ok(root) = recognize(source) {
        lemma_convertible(root, source);
    }
}

/// Every `Input` of an expression that a tree converts to names an
/// argument slot.
pub proof fn lemma_convert_in_range(node: Node, source: Seq<u8>)
    ensures
        convert(node, source) matches Ok(expr) ==> expr.inputs_in_range(),
    decreases node,
{
    match node {
        Node::Root(_, inner) => {
            lemma_convert_in_range(*inner, source);
        },
        Node::Calc(_, lhs, _, rhs) => {
            lemma_convert_in_range(*lhs, source);
            lemma_convert_in_range(*rhs, source);
        },
        Node::Call(_, _, arg) => {
            lemma_convert_in_range(*arg, source);
        },
        _ => {},
    }
}

/// Parsing depends on the text alone: the same text gives the same
/// expression, or the same error, every time.
pub proof fn lemma_parse_same_text(first: &str, second: &str)
    requires
        first@ == second@,
    ensures
        parse(first.spec_bytes()) == parse(second.spec_bytes()),
{
}

/// Every `Input` of a parsed expression names an argument slot, so the
/// compiler finds no bad input in it.
pub proof fn lemma_parse_in_range(source: Seq<u8>)
    ensures
        parse(source) matches Ok(expr) ==> expr.inputs_in_range() && expr.bad_input() is None,
{
    if let Ok(root) = recognize(source) {
        lemma_convert_in_range(root, source);
        if let Ok(expr) = convert(root, source) {
            expr.lemma_bad_input();
        }
    }
}

} // verus!
