use vstd::prelude::*;

use crate::ast::Function;

verus! {

/// An operator symbol.
#[derive(Debug, Clone, Copy, PartialEq, Eq, Structural)]
pub enum Operator {
    Plus,
    Minus,
    Star,
    Slash,
    Caret,
}

/// What a token is. A float literal holds its binary64 bit pattern.
#[derive(Debug, Clone, Copy, PartialEq, Eq, Structural)]
pub enum TokenKind {
    Int(i128),
    Flt(u64),
    Op(Operator),
    Func(Function),
    LeftParen,
    RightParen,
}

/// A token with the offset of its first character in the source text.
#[derive(Debug, Clone, Copy, PartialEq, Eq, Structural)]
pub struct Token {
    pub kind: TokenKind,
    pub start_index: usize,
}

impl Token {
    /// A token of the given kind starting at `start_index`.
    pub fn new(kind: TokenKind, start_index: usize) -> (r: Token)
        ensures
            r == (Token { kind, start_index }),
    {
        Token { kind, start_index }
    }
}

} // verus!
