//! Expression-evaluation core of a calculator: a numeric model that mixes
//! exact integers with binary64 floats, an AST over it, and a
//! recursive-descent parser from tokens to that AST.
//!
//! Floating-point arithmetic itself is supplied by the caller, as a function
//! that answers each [`FloatOp`] request; everything else is decided here.
pub mod ast;
pub mod laws;
pub mod number;
pub mod parser;
pub mod text;
pub mod token;

pub use ast::{BinaryAction, BinaryNode, Function, Node, PlainNode, UnaryAction, UnaryNode};
pub use number::{FloatOp, Number};
pub use parser::{ParseError, Parser};
pub use token::{Operator, Token, TokenKind};
