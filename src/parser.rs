use vstd::prelude::*;

use crate::ast::{BinaryAction, BinaryNode, Node, PlainNode, UnaryAction, UnaryNode};
use crate::number::Number;
use crate::token::{Operator, Token, TokenKind};

verus! {

/// Why a token sequence is not an expression.
#[derive(Debug, Clone, Copy, PartialEq, Eq, Structural)]
pub enum ParseError {
    /// A token was needed but the sequence had ended.
    UnexpectedEOF,
    /// An operator stood where a number, a function or `(` was needed.
    InvalidUnaryOperator(Token),
    /// A `)` was missing, or stood without a matching `(`; the offset of
    /// the offending token.
    MismatchRightParen(usize),
}

/// A parsed node and the position of the first token after it.
pub type Parsed = Result<(Node, int), ParseError>;

/// The binary action of an additive operator.
pub open spec fn additive(k: TokenKind) -> Option<BinaryAction> {
    match k {
        TokenKind::Op(Operator::Plus) => Some(BinaryAction::Add),
        TokenKind::Op(Operator::Minus) => Some(BinaryAction::Sub),
        _ => None,
    }
}

/// The binary action of a multiplicative operator.
pub open spec fn multiplicative(k: TokenKind) -> Option<BinaryAction> {
    match k {
        TokenKind::Op(Operator::Star) => Some(BinaryAction::Mul),
        TokenKind::Op(Operator::Slash) => Some(BinaryAction::Div),
        _ => None,
    }
}

/// The unary action of a prefix sign.
pub open spec fn sign(k: TokenKind) -> Option<UnaryAction> {
    match k {
        TokenKind::Op(Operator::Plus) => Some(UnaryAction::Iden),
        TokenKind::Op(Operator::Minus) => Some(UnaryAction::Neg),
        _ => None,
    }
}

pub open spec fn binary(l: Node, a: BinaryAction, r: Node) -> Node {
    Node::Binary(BinaryNode { left: Box::new(l), actor: a, right: Box::new(r) })
}

pub open spec fn unary(a: UnaryAction, n: Node) -> Node {
    Node::Unary(UnaryNode { actor: a, operand: Box::new(n) })
}

/// `atomic := INT | FLOAT | '(' expr ')' | FUNCTION atomic`
pub open spec fn atomic(toks: Seq<Token>, p: int) -> Parsed
    decreases toks.len() - p, 0int,
{
    if p < 0 || p >= toks.len() {
        Err(ParseError::UnexpectedEOF)
    } else {
        let t = toks[p];
        match t.kind {
            TokenKind::Flt(b) => Ok((Node::Plain(PlainNode(Number::Flt(b))), p + 1)),
            TokenKind::Int(i) => Ok((Node::Plain(PlainNode(Number::Int(i))), p + 1)),
            TokenKind::LeftParen => match expr(toks, p + 1) {
                Err(e) => Err(e),
                Ok((n, q)) => if q >= toks.len() {
                    Err(ParseError::UnexpectedEOF)
                } else if toks[q].kind is RightParen {
                    Ok((n, q + 1))
                } else {
                    Err(ParseError::MismatchRightParen(toks[q].start_index))
                },
            },
            TokenKind::Func(f) => match atomic(toks, p + 1) {
                Err(e) => Err(e),
                Ok((n, q)) => Ok((unary(UnaryAction::Func(f), n), q)),
            },
            TokenKind::Op(_) => Err(ParseError::InvalidUnaryOperator(t)),
            TokenKind::RightParen => Err(ParseError::MismatchRightParen(t.start_index)),
        }
    }
}

/// `factor := ('+' | '-')? atomic`
pub open spec fn factor(toks: Seq<Token>, p: int) -> Parsed
    decreases toks.len() - p, 1int,
{
    if p < 0 || p >= toks.len() {
        Err(ParseError::UnexpectedEOF)
    } else {
        match sign(toks[p].kind) {
            Some(a) => match atomic(toks, p + 1) {
                Err(e) => Err(e),
                Ok((n, q)) => Ok((unary(a, n), q)),
            },
            None => atomic(toks, p),
        }
    }
}

/// `power := factor ('^' power)?`, so that `^` groups to the right.
pub open spec fn power(toks: Seq<Token>, p: int) -> Parsed
    decreases toks.len() - p, 2int,
{
    match factor(toks, p) {
        Err(e) => Err(e),
        Ok((base, q)) => if p < q < toks.len() && toks[q].kind == TokenKind::Op(Operator::Caret) {
            match power(toks, q + 1) {
                Err(e) => Err(e),
                Ok((ex, s)) => Ok((binary(base, BinaryAction::Pow, ex), s)),
            }
        } else {
            Ok((base, q))
        },
    }
}

/// The rest of a term after `acc`: `(('*' | '/') power)*`, folded to the left.
pub open spec fn term_rest(toks: Seq<Token>, acc: Node, p: int) -> Parsed
    decreases toks.len() - p, 3int,
{
    if 0 <= p < toks.len() && multiplicative(toks[p].kind) is Some {
        match power(toks, p + 1) {
            Err(e) => Err(e),
            Ok((rhs, q)) => if p < q <= toks.len() {
                term_rest(toks, binary(acc, multiplicative(toks[p].kind)->0, rhs), q)
            } else {
                Err(ParseError::UnexpectedEOF)
            },
        }
    } else {
        Ok((acc, p))
    }
}

/// `term := power (('*' | '/') power)*`
pub open spec fn term(toks: Seq<Token>, p: int) -> Parsed
    decreases toks.len() - p, 4int,
{
    match power(toks, p) {
        Err(e) => Err(e),
        Ok((n, q)) => if p < q <= toks.len() {
            term_rest(toks, n, q)
        } else {
            Err(ParseError::UnexpectedEOF)
        },
    }
}

/// The rest of an expression after `acc`: `(('+' | '-') term)*`, folded to the left.
pub open spec fn expr_rest(toks: Seq<Token>, acc: Node, p: int) -> Parsed
    decreases toks.len() - p, 5int,
{
    if 0 <= p < toks.len() && additive(toks[p].kind) is Some {
        match term(toks, p + 1) {
            Err(e) => Err(e),
            Ok((rhs, q)) => if p < q <= toks.len() {
                expr_rest(toks, binary(acc, additive(toks[p].kind)->0, rhs), q)
            } else {
                Err(ParseError::UnexpectedEOF)
            },
        }
    } else {
        Ok((acc, p))
    }
}

/// `expr := term (('+' | '-') term)*`
pub open spec fn expr(toks: Seq<Token>, p: int) -> Parsed
    decreases toks.len() - p, 6int,
{
    match term(toks, p) {
        Err(e) => Err(e),
        Ok((n, q)) => if p < q <= toks.len() {
            expr_rest(toks, n, q)
        } else {
            Err(ParseError::UnexpectedEOF)
        },
    }
}

/// The tree of a whole token sequence: an expression from the first token,
/// which must not be followed by a stray `)`.
pub open spec fn parse_tokens(toks: Seq<Token>) -> Result<Node, ParseError> {
    match expr(toks, 0) {
        Err(e) => Err(e),
        Ok((n, q)) => if 0 <= q < toks.len() && toks[q].kind is RightParen {
            Err(ParseError::MismatchRightParen(toks[q].start_index))
        } else {
            Ok(n)
        },
    }
}

/// A recursive-descent parser over a token sequence.
#[derive(Debug)]
pub struct Parser {
    tokens: Vec<Token>,
    pos: usize,
}

/// What a call of a rule at `p` promises: the grammar's result, and on success
/// the parser moved past what it read.
spec fn answers(expected: Parsed, p: int, r: Result<Node, ParseError>, after: Parser) -> bool {
    match expected {
        Ok((n, q)) => r == Ok::<Node, ParseError>(n) && after.pos == q && p < q <= after.tokens.len(),
        Err(e) => r == Err::<Node, ParseError>(e),
    }
}

impl Parser {
    /// The token sequence this parser reads.
    pub closed spec fn tokens(&self) -> Seq<Token> {
        self.tokens@
    }

    /// The position of the next token to read.
    pub closed spec fn position(&self) -> int {
        self.pos as int
    }

    /// A parser at the start of `tokens`.
    pub fn new(tokens: Vec<Token>) -> (r: Parser)
        ensures
            r.tokens() == tokens@,
            r.position() == 0,
    {
        Parser { tokens, pos: 0 }
    }

    /// Parses one expression from the current position and rejects a stray
    /// `)` right after it.
    pub fn parse(&mut self) -> (r: Result<Node, ParseError>)
        requires
            old(self).position() == 0,
        ensures
            final(self).tokens() == old(self).tokens(),
            r == parse_tokens(old(self).tokens()),
    {
        let n = self.parse_expr()?;
        if self.pos < self.tokens.len() {
            let t = self.tokens[self.pos];
            if t.kind == TokenKind::RightParen {
                return Err(ParseError::MismatchRightParen(t.start_index));
            }
        }
        Ok(n)
    }

    fn parse_expr(&mut self) -> (r: Result<Node, ParseError>)
        requires
            old(self).pos <= old(self).tokens.len(),
        ensures
            final(self).tokens == old(self).tokens,
            answers(expr(old(self).tokens@, old(self).pos as int), old(self).pos as int, r, *final(self)),
        decreases old(self).tokens@.len() - old(self).pos, 6int,
    {
        let ghost p0 = self.pos as int;
        let mut acc = self.parse_term()?;
        assert(expr(self.tokens@, p0) == expr_rest(self.tokens@, acc, self.pos as int));
        loop
            invariant
                self.tokens == old(self).tokens,
                p0 == old(self).pos,
                p0 < self.pos <= self.tokens.len(),
                expr(self.tokens@, p0) == expr_rest(self.tokens@, acc, self.pos as int),
            decreases self.tokens.len() - self.pos,
        {
            if self.pos >= self.tokens.len() {
                return Ok(acc);
            }
            let actor = match self.tokens[self.pos].kind {
                TokenKind::Op(Operator::Plus) => BinaryAction::Add,
                TokenKind::Op(Operator::Minus) => BinaryAction::Sub,
                _ => {
                    return Ok(acc);
                },
            };
            self.pos = self.pos + 1;
            let rhs = self.parse_term()?;
            acc = Node::Binary(BinaryNode::new(acc, actor, rhs));
        }
    }

    fn parse_term(&mut self) -> (r: Result<Node, ParseError>)
        requires
            old(self).pos <= old(self).tokens.len(),
        ensures
            final(self).tokens == old(self).tokens,
            answers(term(old(self).tokens@, old(self).pos as int), old(self).pos as int, r, *final(self)),
        decreases old(self).tokens@.len() - old(self).pos, 4int,
    {
        let ghost p0 = self.pos as int;
        let mut acc = self.parse_power()?;
        assert(term(self.tokens@, p0) == term_rest(self.tokens@, acc, self.pos as int));
        loop
            invariant
                self.tokens == old(self).tokens,
                p0 == old(self).pos,
                p0 < self.pos <= self.tokens.len(),
                term(self.tokens@, p0) == term_rest(self.tokens@, acc, self.pos as int),
            decreases self.tokens.len() - self.pos,
        {
            if self.pos >= self.tokens.len() {
                return Ok(acc);
            }
            let actor = match self.tokens[self.pos].kind {
                TokenKind::Op(Operator::Star) => BinaryAction::Mul,
                TokenKind::Op(Operator::Slash) => BinaryAction::Div,
                _ => {
                    return Ok(acc);
                },
            };
            self.pos = self.pos + 1;
            let rhs = self.parse_power()?;
            acc = Node::Binary(BinaryNode::new(acc, actor, rhs));
        }
    }

    fn parse_power(&mut self) -> (r: Result<Node, ParseError>)
        requires
            old(self).pos <= old(self).tokens.len(),
        ensures
            final(self).tokens == old(self).tokens,
            answers(power(old(self).tokens@, old(self).pos as int), old(self).pos as int, r, *final(self)),
        decreases old(self).tokens@.len() - old(self).pos, 2int,
    {
        let base = self.parse_factor()?;
        if self.pos < self.tokens.len() && self.tokens[self.pos].kind == TokenKind::Op(Operator::Caret) {
            self.pos = self.pos + 1;
            let ex = self.parse_power()?;
            Ok(Node::Binary(BinaryNode::new(base, BinaryAction::Pow, ex)))
        } else {
            Ok(base)
        }
    }

    fn parse_factor(&mut self) -> (r: Result<Node, ParseError>)
        requires
            old(self).pos <= old(self).tokens.len(),
        ensures
            final(self).tokens == old(self).tokens,
            answers(factor(old(self).tokens@, old(self).pos as int), old(self).pos as int, r, *final(self)),
        decreases old(self).tokens@.len() - old(self).pos, 1int,
    {
        if self.pos >= self.tokens.len() {
            return Err(ParseError::UnexpectedEOF);
        }
        let actor = match self.tokens[self.pos].kind {
            TokenKind::Op(Operator::Plus) => UnaryAction::Iden,
            TokenKind::Op(Operator::Minus) => UnaryAction::Neg,
            _ => {
                return self.parse_atomic();
            },
        };
        self.pos = self.pos + 1;
        let operand = self.parse_atomic()?;
        Ok(Node::Unary(UnaryNode::new(actor, operand)))
    }

    fn parse_atomic(&mut self) -> (r: Result<Node, ParseError>)
        requires
            old(self).pos <= old(self).tokens.len(),
        ensures
            final(self).tokens == old(self).tokens,
            answers(atomic(old(self).tokens@, old(self).pos as int), old(self).pos as int, r, *final(self)),
        decreases old(self).tokens@.len() - old(self).pos, 0int,
    {
        if self.pos >= self.tokens.len() {
            return Err(ParseError::UnexpectedEOF);
        }
        let token = self.tokens[self.pos];
        self.pos = self.pos + 1;
        match token.kind {
            TokenKind::Flt(b) => Ok(Node::Plain(PlainNode::new(Number::Flt(b)))),
            TokenKind::Int(i) => Ok(Node::Plain(PlainNode::new(Number::Int(i)))),
            TokenKind::LeftParen => self.parse_paren_expr(),
            TokenKind::Func(f) => {
                let operand = self.parse_atomic()?;
                Ok(Node::Unary(UnaryNode::new(UnaryAction::Func(f), operand)))
            },
            TokenKind::Op(_) => Err(ParseError::InvalidUnaryOperator(token)),
            TokenKind::RightParen => Err(ParseError::MismatchRightParen(token.start_index)),
        }
    }

    /// The inside of a parenthesised expression, whose `(` was just read, and
    /// its closing `)`.
    fn parse_paren_expr(&mut self) -> (r: Result<Node, ParseError>)
        requires
            0 < old(self).pos <= old(self).tokens.len(),
            old(self).tokens@[old(self).pos - 1].kind is LeftParen,
        ensures
            final(self).tokens == old(self).tokens,
            answers(atomic(old(self).tokens@, old(self).pos - 1), old(self).pos - 1, r, *final(self)),
        decreases old(self).tokens@.len() - old(self).pos, 7int,
    {
        let inner = self.parse_expr()?;
        if self.pos >= self.tokens.len() {
            return Err(ParseError::UnexpectedEOF);
        }
        let token = self.tokens[self.pos];
        if token.kind != TokenKind::RightParen {
            return Err(ParseError::MismatchRightParen(token.start_index));
        }
        self.pos = self.pos + 1;
        Ok(inner)
    }
}

} // verus!
