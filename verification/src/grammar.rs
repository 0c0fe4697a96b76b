//! The grammar of the expression language, as functions from a byte
//! offset in the source to the parse tree that starts there.
//!
//! ```text
//! source  := root                      (the whole text, blanks around it)
//! root    := calc | call | input | num (the first that matches)
//! calc    := operand op operand
//! operand := "(" root ")" | call | input | num
//! op      := "==" | "+" | "-" | "*" | "/"
//! call    := ident "(" root ")"
//! ident   := (letter | "_") (letter | digit | "_")*
//! input   := "$" digit+
//! num     := "-"? digit+
//! ```
//!
//! Blanks (space, tab, line feed, carriage return) may stand between the
//! parts of `calc`, `call` and a parenthesised operand, never inside a
//! token.

use vstd::prelude::*;
use crate::tree::{Node, Span};

verus! {

/// `+`
pub const PLUS: u8 = 0x2b;

/// `-`
pub const MINUS: u8 = 0x2d;

/// `*`
pub const STAR: u8 = 0x2a;

/// `/`
pub const SLASH: u8 = 0x2f;

/// `=`
pub const EQUALS: u8 = 0x3d;

/// `$`
pub const DOLLAR: u8 = 0x24;

/// `(`
pub const OPEN: u8 = 0x28;

/// `)`
pub const CLOSE: u8 = 0x29;

/// A set of bytes that a token is a run of.
#[derive(Debug, Clone, Copy, PartialEq, Eq, Structural)]
pub enum Class {
    Blank,
    Digit,
    Name,
}

/// A byte that a name can begin with: a letter or `_`.
pub open spec fn is_letter(b: u8) -> bool {
    (0x41 <= b <= 0x5a) || (0x61 <= b <= 0x7a) || b == 0x5f
}

impl Class {
    /// `b` is of the class: a blank; a digit; a byte that a name can go
    /// on with.
    pub open spec fn has(self, b: u8) -> bool {
        match self {
            Class::Blank => b == 0x20 || b == 0x09 || b == 0x0a || b == 0x0d,
            Class::Digit => 0x30 <= b <= 0x39,
            Class::Name => is_letter(b) || (0x30 <= b <= 0x39),
        }
    }

    /// Tells whether `b` is of the class.
    pub fn contains(&self, b: u8) -> (r: bool)
        ensures
            r == self.has(b),
    {
        match self {
            Class::Blank => b == 0x20 || b == 0x09 || b == 0x0a || b == 0x0d,
            Class::Digit => 0x30 <= b && b <= 0x39,
            Class::Name => (0x41 <= b && b <= 0x5a) || (0x61 <= b && b <= 0x7a) || b == 0x5f || (
            0x30 <= b && b <= 0x39),
        }
    }
}

/// `s` holds the byte `b` at offset `i`.
pub open spec fn byte_is(s: Seq<u8>, i: int, b: u8) -> bool {
    0 <= i < s.len() && s[i] == b
}

/// The offset at which the run of bytes of `class` that starts at `i` ends.
pub open spec fn run_end(s: Seq<u8>, i: int, class: Class) -> int
    decreases s.len() - i,
{
    if 0 <= i < s.len() && class.has(s[i]) {
        run_end(s, i + 1, class)
    } else {
        i
    }
}

/// A run ends at or after its start, within the text, on a byte that is
/// not of the class, and holds bytes of the class only.
pub proof fn lemma_run_end(s: Seq<u8>, i: int, class: Class)
    requires
        0 <= i <= s.len(),
    ensures
        i <= run_end(s, i, class) <= s.len(),
        run_end(s, i, class) < s.len() ==> !class.has(s[run_end(s, i, class)]),
        forall|k: int| i <= k < run_end(s, i, class) ==> class.has(#[trigger] s[k]),
    decreases s.len() - i,
{
    if i < s.len() && class.has(s[i]) {
        lemma_run_end(s, i + 1, class);
    }
}

/// What a rule gives at an offset: the node it matched and the offset
/// after it, or the offset at which it could not go on.
pub type Parsed = Result<(Node, int), int>;

/// The span from `start` to `end`.
pub open spec fn span_of(start: int, end: int) -> Span {
    Span { start: start as usize, end: end as usize }
}

/// The later of two offsets.
pub open spec fn later(a: int, b: int) -> int {
    if a >= b {
        a
    } else {
        b
    }
}

/// `num := "-"? digit+`
pub open spec fn num_at(s: Seq<u8>, i: int) -> Parsed {
    let j = if byte_is(s, i, MINUS) {
        i + 1
    } else {
        i
    };
    let e = run_end(s, j, Class::Digit);
    if e > j {
        Ok((Node::Num(span_of(i, e)), e))
    } else {
        Err(j)
    }
}

/// `input := "$" digit+`
pub open spec fn input_at(s: Seq<u8>, i: int) -> Parsed {
    if byte_is(s, i, DOLLAR) {
        let e = run_end(s, i + 1, Class::Digit);
        if e > i + 1 {
            Ok((Node::Input(span_of(i, e)), e))
        } else {
            Err(i + 1)
        }
    } else {
        Err(i)
    }
}

/// `op := "==" | "+" | "-" | "*" | "/"`
pub open spec fn op_at(s: Seq<u8>, i: int) -> Parsed {
    if byte_is(s, i, EQUALS) {
        if byte_is(s, i + 1, EQUALS) {
            Ok((Node::Op(span_of(i, i + 2)), i + 2))
        } else {
            Err(i + 1)
        }
    } else if byte_is(s, i, PLUS) || byte_is(s, i, MINUS) || byte_is(s, i, STAR) || byte_is(
        s,
        i,
        SLASH,
    ) {
        Ok((Node::Op(span_of(i, i + 1)), i + 1))
    } else {
        Err(i)
    }
}

/// What follows a rule that ended at `e`: blanks, then `)`.
pub open spec fn close_at(s: Seq<u8>, e: int) -> Result<int, int> {
    let n = run_end(s, e, Class::Blank);
    if byte_is(s, n, CLOSE) {
        Ok(n + 1)
    } else {
        Err(n)
    }
}

/// `root := calc | call | input | num`, the first that matches. Where
/// none does, the rule fails at the latest offset at which one of them
/// failed.
pub open spec fn root_at(s: Seq<u8>, i: int) -> Parsed
    decreases s.len() - i, 4int,
{
    match calc_at(s, i) {
        Ok((calc, e)) => Ok((Node::Root(span_of(i, e), Box::new(calc)), e)),
        Err(a1) => match call_at(s, i) {
            Ok((call, e)) => Ok((Node::Root(span_of(i, e), Box::new(call)), e)),
            Err(a2) => match input_at(s, i) {
                Ok((input, e)) => Ok((Node::Root(span_of(i, e), Box::new(input)), e)),
                Err(a3) => match num_at(s, i) {
                    Ok((num, e)) => Ok((Node::Root(span_of(i, e), Box::new(num)), e)),
                    Err(a4) => Err(later(later(a1, a2), later(a3, a4))),
                },
            },
        },
    }
}

/// `calc := operand op operand`
///
/// An operand is never empty, so the test on `e` always holds; it is
/// there to show that the rule comes to an end.
pub open spec fn calc_at(s: Seq<u8>, i: int) -> Parsed
    decreases s.len() - i, 3int,
{
    match operand_at(s, i) {
        Err(a) => Err(a),
        Ok((lhs, e)) => if i < e <= s.len() {
            match tail_at(s, e) {
                Err(a) => Err(a),
                Ok((op, rhs, end)) => Ok(
                    (
                        Node::Calc(span_of(i, end), Box::new(lhs), Box::new(op), Box::new(rhs)),
                        end,
                    ),
                ),
            }
        } else {
            Err(e)
        },
    }
}

/// The operator and the right operand of a `calc` whose left operand
/// ended at `e`.
pub open spec fn tail_at(s: Seq<u8>, e: int) -> Result<(Node, Node, int), int>
    decreases s.len() - e, 2int,
{
    if 0 <= e <= s.len() {
        match op_at(s, run_end(s, e, Class::Blank)) {
            Err(a) => Err(a),
            Ok((op, e2)) => {
                proof {
                    lemma_run_end(s, e, Class::Blank);
                    lemma_run_end(s, e2, Class::Blank);
                }
                match operand_at(s, run_end(s, e2, Class::Blank)) {
                    Err(a) => Err(a),
                    Ok((rhs, end)) => Ok((op, rhs, end)),
                }
            },
        }
    } else {
        Err(e)
    }
}

/// `operand := "(" root ")" | call | input | num`
///
/// The first byte decides which of the four it can be. A parenthesised
/// operand is the `Root` node between the parentheses.
pub open spec fn operand_at(s: Seq<u8>, i: int) -> Parsed
    decreases s.len() - i, 1int,
{
    if byte_is(s, i, OPEN) {
        proof {
            lemma_run_end(s, i + 1, Class::Blank);
        }
        match root_at(s, run_end(s, i + 1, Class::Blank)) {
            Err(a) => Err(a),
            Ok((root, e)) => match close_at(s, e) {
                Err(a) => Err(a),
                Ok(end) => Ok((root, end)),
            },
        }
    } else if 0 <= i < s.len() && is_letter(s[i]) {
        call_at(s, i)
    } else if byte_is(s, i, DOLLAR) {
        input_at(s, i)
    } else {
        num_at(s, i)
    }
}

/// `call := ident "(" root ")"`
pub open spec fn call_at(s: Seq<u8>, i: int) -> Parsed
    decreases s.len() - i, 0int,
{
    if 0 <= i < s.len() && is_letter(s[i]) {
        let e = run_end(s, i, Class::Name);
        let j = run_end(s, e, Class::Blank);
        if byte_is(s, j, OPEN) {
            proof {
                lemma_run_end(s, i, Class::Name);
                lemma_run_end(s, e, Class::Blank);
                lemma_run_end(s, j + 1, Class::Blank);
            }
            match root_at(s, run_end(s, j + 1, Class::Blank)) {
                Err(a) => Err(a),
                Ok((arg, m)) => match close_at(s, m) {
                    Err(a) => Err(a),
                    Ok(end) => Ok(
                        (
                            Node::Call(
                                span_of(i, end),
                                Box::new(Node::Ident(span_of(i, e))),
                                Box::new(arg),
                            ),
                            end,
                        ),
                    ),
                },
            }
        } else {
            Err(j)
        }
    } else {
        Err(i)
    }
}

/// The parse tree of a whole source text: blanks, one `root`, blanks,
/// and nothing more. A text that is no expression fails at the offset
/// at which `root` failed, or at the first byte that `root` left over.
pub open spec fn recognize(s: Seq<u8>) -> Result<Node, int> {
    match root_at(s, run_end(s, 0, Class::Blank)) {
        Err(a) => Err(a),
        Ok((root, e)) => {
            let end = run_end(s, e, Class::Blank);
            if end == s.len() {
                Ok(root)
            } else {
                Err(end)
            }
        },
    }
}

/// An executable result says what the rule says.
pub open spec fn agrees(r: Result<(Node, usize), usize>, p: Parsed) -> bool {
    match r {
        Ok((node, end)) => p == Ok::<(Node, int), int>((node, end as int)),
        Err(at) => p == Err::<(Node, int), int>(at as int),
    }
}

/// A match ends after `i`, a failure lies at or after `i`; both within
/// the text.
pub open spec fn bounded(r: Result<(Node, usize), usize>, i: usize, len: usize) -> bool {
    match r {
        Ok((_, end)) => i < end <= len,
        Err(at) => i <= at <= len,
    }
}

fn is_letter_byte(b: u8) -> (r: bool)
    ensures
        r == is_letter(b),
{
    (0x41 <= b && b <= 0x5a) || (0x61 <= b && b <= 0x7a) || b == 0x5f
}

/// Skips the run of bytes of `class` that starts at `i`.
fn scan(s: &[u8], i: usize, class: Class) -> (e: usize)
    requires
        i <= s.len(),
    ensures
        e == run_end(s@, i as int, class),
        i <= e <= s.len(),
{
    let mut j: usize = i;
    while j < s.len() && class.contains(s[j])
        invariant
            i <= j <= s.len(),
            run_end(s@, i as int, class) == run_end(s@, j as int, class),
        decreases s.len() - j,
    {
        j = j + 1;
    }
    j
}

fn parse_num(s: &[u8], i: usize) -> (r: Result<(Node, usize), usize>)
    requires
        i <= s.len(),
    ensures
        agrees(r, num_at(s@, i as int)),
        bounded(r, i, s.len()),
{
    let j: usize = if i < s.len() && s[i] == MINUS {
        i + 1
    } else {
        i
    };
    let e = scan(s, j, Class::Digit);
    if e > j {
        Ok((Node::Num(Span { start: i, end: e }), e))
    } else {
        Err(j)
    }
}

fn parse_input(s: &[u8], i: usize) -> (r: Result<(Node, usize), usize>)
    requires
        i <= s.len(),
    ensures
        agrees(r, input_at(s@, i as int)),
        bounded(r, i, s.len()),
{
    if i < s.len() && s[i] == DOLLAR {
        let e = scan(s, i + 1, Class::Digit);
        if e > i + 1 {
            Ok((Node::Input(Span { start: i, end: e }), e))
        } else {
            Err(i + 1)
        }
    } else {
        Err(i)
    }
}

fn parse_op(s: &[u8], i: usize) -> (r: Result<(Node, usize), usize>)
    requires
        i <= s.len(),
    ensures
        agrees(r, op_at(s@, i as int)),
        bounded(r, i, s.len()),
{
    if i >= s.len() {
        return Err(i);
    }
    let b: u8 = s[i];
    if b == EQUALS {
        if i + 1 < s.len() && s[i + 1] == EQUALS {
            Ok((Node::Op(Span { start: i, end: i + 2 }), i + 2))
        } else {
            Err(i + 1)
        }
    } else if b == PLUS || b == MINUS || b == STAR || b == SLASH {
        Ok((Node::Op(Span { start: i, end: i + 1 }), i + 1))
    } else {
        Err(i)
    }
}

fn parse_close(s: &[u8], e: usize) -> (r: Result<usize, usize>)
    requires
        e <= s.len(),
    ensures
        match r {
            Ok(end) => close_at(s@, e as int) == Ok::<int, int>(end as int) && e < end <= s.len(),
            Err(at) => close_at(s@, e as int) == Err::<int, int>(at as int) && e <= at <= s.len(),
        },
{
    let n = scan(s, e, Class::Blank);
    if n < s.len() && s[n] == CLOSE {
        Ok(n + 1)
    } else {
        Err(n)
    }
}

/// Reads a `root` at `i`.
///
/// Every `root` begins like an operand, so the operand is read once: with
/// an operator and a second operand after it the three are a `calc`;
/// without, the operand itself is the `call`, `input` or `num` that `root`
/// would have tried next, unless it stood in parentheses.
fn parse_root(s: &[u8], i: usize) -> (r: Result<(Node, usize), usize>)
    requires
        i <= s.len(),
    ensures
        agrees(r, root_at(s@, i as int)),
        bounded(r, i, s.len()),
    decreases s.len() - i, 4int,
{
    match parse_operand(s, i) {
        Err(a) => Err(a),
        Ok((first, e)) => match parse_tail(s, e) {
            Ok((op, rhs, end)) => {
                let span = Span { start: i, end };
                let calc = Node::Calc(span, Box::new(first), Box::new(op), Box::new(rhs));
                Ok((Node::Root(span, Box::new(calc)), end))
            },
            Err(a) => {
                if s[i] == OPEN {
                    Err(a)
                } else {
                    Ok((Node::Root(Span { start: i, end: e }, Box::new(first)), e))
                }
            },
        },
    }
}

fn parse_tail(s: &[u8], e: usize) -> (r: Result<(Node, Node, usize), usize>)
    requires
        e <= s.len(),
    ensures
        match r {
            Ok((op, rhs, end)) => tail_at(s@, e as int) == Ok::<(Node, Node, int), int>(
                (op, rhs, end as int),
            ) && e < end <= s.len(),
            Err(at) => tail_at(s@, e as int) == Err::<(Node, Node, int), int>(at as int) && e <= at
                <= s.len(),
        },
    decreases s.len() - e, 2int,
{
    let j = scan(s, e, Class::Blank);
    match parse_op(s, j) {
        Err(a) => Err(a),
        Ok((op, e2)) => {
            let k = scan(s, e2, Class::Blank);
            match parse_operand(s, k) {
                Err(a) => Err(a),
                Ok((rhs, end)) => Ok((op, rhs, end)),
            }
        },
    }
}

fn parse_operand(s: &[u8], i: usize) -> (r: Result<(Node, usize), usize>)
    requires
        i <= s.len(),
    ensures
        agrees(r, operand_at(s@, i as int)),
        bounded(r, i, s.len()),
    decreases s.len() - i, 1int,
{
    if i < s.len() && s[i] == OPEN {
        let k = scan(s, i + 1, Class::Blank);
        match parse_root(s, k) {
            Err(a) => Err(a),
            Ok((root, e)) => match parse_close(s, e) {
                Err(a) => Err(a),
                Ok(end) => Ok((root, end)),
            },
        }
    } else if i < s.len() && is_letter_byte(s[i]) {
        parse_call(s, i)
    } else if i < s.len() && s[i] == DOLLAR {
        parse_input(s, i)
    } else {
        parse_num(s, i)
    }
}

fn parse_call(s: &[u8], i: usize) -> (r: Result<(Node, usize), usize>)
    requires
        i <= s.len(),
    ensures
        agrees(r, call_at(s@, i as int)),
        bounded(r, i, s.len()),
    decreases s.len() - i, 0int,
{
    if i < s.len() && is_letter_byte(s[i]) {
        let e = scan(s, i, Class::Name);
        let j = scan(s, e, Class::Blank);
        if j < s.len() && s[j] == OPEN {
            let k = scan(s, j + 1, Class::Blank);
            match parse_root(s, k) {
                Err(a) => Err(a),
                Ok((arg, m)) => match parse_close(s, m) {
                    Err(a) => Err(a),
                    Ok(end) => {
                        let name = Node::Ident(Span { start: i, end: e });
                        Ok(
                            (
                                Node::Call(Span { start: i, end }, Box::new(name), Box::new(arg)),
                                end,
                            ),
                        )
                    },
                },
            }
        } else {
            Err(j)
        }
    } else {
        Err(i)
    }
}

/// Reads the parse tree of a whole source text.
pub fn parse_tree(source: &[u8]) -> (r: Result<Node, usize>)
    ensures
        match r {
            Ok(root) => recognize(source@) == Ok::<Node, int>(root),
            Err(at) => recognize(source@) == Err::<Node, int>(at as int) && at <= source.len(),
        },
{
    let i = scan(source, 0, Class::Blank);
    match parse_root(source, i) {
        Err(a) => Err(a),
        Ok((root, e)) => {
            let end = scan(source, e, Class::Blank);
            if end == source.len() {
                Ok(root)
            } else {
                Err(end)
            }
        },
    }
}

} // verus!
