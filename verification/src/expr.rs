//! The expression tree and the two closed name spaces it draws on:
//! binary operators and built-in functions.

use vstd::prelude::*;
use vstd::string::StringSliceAdditionalSpecFns;

verus! {

/// Number of positional argument slots a compiled expression receives.
pub const INPUT_SLOTS: u64 = 4;

/// An `Input` names an argument slot that is not there.
#[derive(Debug, Clone, Copy, PartialEq, Eq, Structural)]
pub struct InputRangeError {
    /// The index that was asked for.
    pub index: u64,
}

/// Binary operator types
#[derive(Debug, Clone, Copy, PartialEq, Eq, Structural)]
pub enum BinOp {
    Add,
    Sub,
    Mul,
    Div,
    Eq,
}

impl BinOp {
    /// The source spelling of the operator, as bytes.
    pub open spec fn text(self) -> Seq<u8> {
        match self {
            BinOp::Add => seq![0x2bu8],
            BinOp::Sub => seq![0x2du8],
            BinOp::Mul => seq![0x2au8],
            BinOp::Div => seq![0x2fu8],
            BinOp::Eq => seq![0x3du8, 0x3du8],
        }
    }

    /// The operator that `text` spells, if any.
    pub open spec fn from_text(text: Seq<u8>) -> Option<BinOp> {
        if text == BinOp::Add.text() {
            Some(BinOp::Add)
        } else if text == BinOp::Sub.text() {
            Some(BinOp::Sub)
        } else if text == BinOp::Mul.text() {
            Some(BinOp::Mul)
        } else if text == BinOp::Div.text() {
            Some(BinOp::Div)
        } else if text == BinOp::Eq.text() {
            Some(BinOp::Eq)
        } else {
            None
        }
    }

    /// The source spelling of the operator.
    pub fn to_string(&self) -> (s: &str)
        ensures
            s.spec_bytes() == self.text(),
    {
        broadcast use vstd::string::is_ascii_spec_bytes;

        proof {
            reveal_strlit("+");
            reveal_strlit("-");
            reveal_strlit("*");
            reveal_strlit("/");
            reveal_strlit("==");
        }
        let s = match self {
            BinOp::Add => "+",
            BinOp::Sub => "-",
            BinOp::Mul => "*",
            BinOp::Div => "/",
            BinOp::Eq => "==",
        };
        assert(vstd::string::is_ascii(s));
        s
    }

    /// Reads an operator from the bytes of its spelling.
    pub fn from_bytes(text: &[u8]) -> (r: Option<BinOp>)
        ensures
            r == BinOp::from_text(text@),
    {
        if text.len() == 1 {
            let b: u8 = text[0];
            assert(text@ == seq![b]);
            if b == 0x2b {
                Some(BinOp::Add)
            } else if b == 0x2d {
                Some(BinOp::Sub)
            } else if b == 0x2a {
                Some(BinOp::Mul)
            } else if b == 0x2f {
                Some(BinOp::Div)
            } else {
                None
            }
        } else if text.len() == 2 {
            let b0: u8 = text[0];
            let b1: u8 = text[1];
            assert(text@ == seq![b0, b1]);
            if b0 == 0x3d && b1 == 0x3d {
                Some(BinOp::Eq)
            } else {
                None
            }
        } else {
            None
        }
    }

    /// Reads an operator from its spelling.
    pub fn from_string(op: &str) -> (r: Option<BinOp>)
        ensures
            r == BinOp::from_text(op.spec_bytes()),
    {
        BinOp::from_bytes(op.as_bytes())
    }
}

/// Built-in functions
///
/// Only the names live here. What they do is supplied by whoever links
/// the compiled code; the compiler binds each name to an imported symbol.
#[derive(Debug, Clone, Copy, PartialEq, Eq, Structural)]
pub enum BuiltInFunc {
    Print,
    Rand,
}

impl BuiltInFunc {
    /// The name of the built-in, as bytes.
    pub open spec fn text(self) -> Seq<u8> {
        match self {
            BuiltInFunc::Print => seq![0x70u8, 0x72u8, 0x69u8, 0x6eu8, 0x74u8],
            BuiltInFunc::Rand => seq![0x72u8, 0x61u8, 0x6eu8, 0x64u8],
        }
    }

    /// The built-in that `text` names, if any.
    pub open spec fn from_text(text: Seq<u8>) -> Option<BuiltInFunc> {
        if text == BuiltInFunc::Print.text() {
            Some(BuiltInFunc::Print)
        } else if text == BuiltInFunc::Rand.text() {
            Some(BuiltInFunc::Rand)
        } else {
            None
        }
    }

    /// The name of the built-in, as characters.
    pub open spec fn name(self) -> Seq<char> {
        match self {
            BuiltInFunc::Print => "print"@,
            BuiltInFunc::Rand => "rand"@,
        }
    }

    /// The name of the built-in, which is also the symbol it is linked by.
    pub fn to_string(&self) -> (s: &str)
        ensures
            s.spec_bytes() == self.text(),
            s@ == self.name(),
    {
        broadcast use vstd::string::is_ascii_spec_bytes;

        proof {
            reveal_strlit("print");
            reveal_strlit("rand");
        }
        let s = match self {
            BuiltInFunc::Print => "print",
            BuiltInFunc::Rand => "rand",
        };
        assert(vstd::string::is_ascii(s));
        s
    }

    /// Reads a built-in from the bytes of its name.
    pub fn from_bytes(text: &[u8]) -> (r: Option<BuiltInFunc>)
        ensures
            r == BuiltInFunc::from_text(text@),
    {
        if text.len() == 5 {
            if text[0] == 0x70 && text[1] == 0x72 && text[2] == 0x69 && text[3] == 0x6e && text[4]
                == 0x74 {
                assert(text@ == BuiltInFunc::Print.text());
                Some(BuiltInFunc::Print)
            } else {
                None
            }
        } else if text.len() == 4 {
            if text[0] == 0x72 && text[1] == 0x61 && text[2] == 0x6e && text[3] == 0x64 {
                assert(text@ == BuiltInFunc::Rand.text());
                Some(BuiltInFunc::Rand)
            } else {
                None
            }
        } else {
            None
        }
    }

    /// Reads a built-in from its name.
    pub fn from_string(name: &str) -> (r: Option<BuiltInFunc>)
        ensures
            r == BuiltInFunc::from_text(name.spec_bytes()),
    {
        BuiltInFunc::from_bytes(name.as_bytes())
    }
}

/// Main expressions
#[derive(Debug, PartialEq, Eq)]
pub enum Expr {
    Input(u64),
    Num(i64),
    BinOp(BinOp, Box<Expr>, Box<Expr>),
    Call(BuiltInFunc, Box<Expr>),
}

impl Expr {
    /// Every `Input` in the tree names one of the argument slots.
    pub open spec fn inputs_in_range(self) -> bool
        decreases self,
    {
        match self {
            Expr::Input(i) => i < INPUT_SLOTS,
            Expr::Num(_) => true,
            Expr::BinOp(_, lhs, rhs) => lhs.inputs_in_range() && rhs.inputs_in_range(),
            Expr::Call(_, arg) => arg.inputs_in_range(),
        }
    }

    /// The first `Input` index, in reading order, that names no argument
    /// slot.
    pub open spec fn bad_input(self) -> Option<u64>
        decreases self,
    {
        match self {
            Expr::Input(i) => if i < INPUT_SLOTS {
                None
            } else {
                Some(i)
            },
            Expr::Num(_) => None,
            Expr::BinOp(_, lhs, rhs) => match lhs.bad_input() {
                Some(i) => Some(i),
                None => rhs.bad_input(),
            },
            Expr::Call(_, arg) => arg.bad_input(),
        }
    }

    /// There is a bad input exactly when the inputs are not all in range,
    /// and it is out of range.
    pub proof fn lemma_bad_input(self)
        ensures
            self.bad_input() is None <==> self.inputs_in_range(),
            self.bad_input() matches Some(i) ==> i >= INPUT_SLOTS,
        decreases self,
    {
        match self {
            Expr::BinOp(_, lhs, rhs) => {
                lhs.lemma_bad_input();
                rhs.lemma_bad_input();
            },
            Expr::Call(_, arg) => {
                arg.lemma_bad_input();
            },
            _ => {},
        }
    }

    /// Looks for an `Input` that names no argument slot.
    pub fn find_bad_input(&self) -> (r: Option<u64>)
        ensures
            r == self.bad_input(),
        decreases self,
    {
        match self {
            Expr::Input(i) => if *i < INPUT_SLOTS {
                None
            } else {
                Some(*i)
            },
            Expr::Num(_) => None,
            Expr::BinOp(_, lhs, rhs) => match lhs.find_bad_input() {
                Some(i) => Some(i),
                None => rhs.find_bad_input(),
            },
            Expr::Call(_, arg) => arg.find_bad_input(),
        }
    }

    /// The tree holds at least one call of a built-in.
    pub open spec fn has_call(self) -> bool
        decreases self,
    {
        match self {
            Expr::Input(_) => false,
            Expr::Num(_) => false,
            Expr::BinOp(_, lhs, rhs) => lhs.has_call() || rhs.has_call(),
            Expr::Call(_, _) => true,
        }
    }
}

impl Clone for Expr {
    fn clone(&self) -> (r: Expr)
        ensures
            r == *self,
        decreases self,
    {
        match self {
            Expr::Input(i) => Expr::Input(*i),
            Expr::Num(n) => Expr::Num(*n),
            Expr::BinOp(op, lhs, rhs) => {
                let l: Expr = (**lhs).clone();
                let r: Expr = (**rhs).clone();
                Expr::BinOp(*op, Box::new(l), Box::new(r))
            },
            Expr::Call(func, arg) => {
                let a: Expr = (**arg).clone();
                Expr::Call(*func, Box::new(a))
            },
        }
    }
}

/// Spelling an operator and reading it back gives the operator again.
pub proof fn lemma_binop_text_round_trip(op: BinOp)
    ensures
        BinOp::from_text(op.text()) == Some(op),
{
    assert(BinOp::Sub.text()[0] == 0x2du8);
    assert(BinOp::Mul.text()[0] == 0x2au8);
    assert(BinOp::Div.text()[0] == 0x2fu8);
}

/// Spelling a built-in and reading it back gives the built-in again.
pub proof fn lemma_builtin_text_round_trip(func: BuiltInFunc)
    ensures
        BuiltInFunc::from_text(func.text()) == Some(func),
{
}

} // verus!
