//! A small arithmetic expression language that is compiled to native code.
//!
//! Source text is recognised by [`grammar`] and turned into an
//! [`expr::Expr`] by [`parser`]. [`compiler`] lowers the expression into
//! Cranelift IR, through the calls in [`backend`]. What an expression
//! means is said in [`semantics`], what its instructions compute in
//! [`machine`], and that the two agree in [`lowering`].

pub mod backend;
pub mod compiler;
pub mod expr;
pub mod grammar;
pub mod inputs;
pub mod literal;
pub mod lowering;
pub mod machine;
pub mod parser;
pub mod semantics;
pub mod tree;

pub use crate::compiler::{build_function, compile_expr, CompileError, Fn4I32ToI32};
pub use crate::expr::{BinOp, BuiltInFunc, Expr, InputRangeError};
pub use crate::grammar::parse_tree;
pub use crate::inputs::fill_inputs;
pub use crate::lowering::Listing;
pub use crate::parser::{convert_rule_to_expr, parse_expr, ParseError};
pub use crate::semantics::evaluate;
pub use crate::tree::{Node, Span};
