use vstd::prelude::*;

use crate::number::{
    float_of, int_div, int_pow, is_zero, neg_spec, total, trunc_div, wrapping_pow, FloatOp, Number,
    NAN_BITS,
};
use crate::text::{int_text, decimal};

verus! {

/// An action performed on two operands.
#[derive(Debug, Clone, Copy, PartialEq, Eq, Structural)]
pub enum BinaryAction {
    Add,
    Sub,
    Mul,
    Div,
    Pow,
}

/// A named unary function: the trigonometric functions and their inverses.
#[derive(Debug, Clone, Copy, PartialEq, Eq, Structural)]
pub enum Function {
    Sin,
    Cos,
    Tan,
    Sec,
    Csc,
    Cot,
    Asin,
    Acos,
    Atan,
    Asec,
    Acsc,
    Acot,
}

/// An action performed on one operand.
#[derive(Debug, Clone, Copy, PartialEq, Eq, Structural)]
pub enum UnaryAction {
    Neg,
    Iden,
    Func(Function),
}

/// A leaf holding a number.
#[derive(Debug)]
pub struct PlainNode(pub Number);

/// An action applied to one owned operand.
#[derive(Debug)]
pub struct UnaryNode {
    pub actor: UnaryAction,
    pub operand: Box<Node>,
}

/// An action applied to two owned operands, left then right.
#[derive(Debug)]
pub struct BinaryNode {
    pub left: Box<Node>,
    pub actor: BinaryAction,
    pub right: Box<Node>,
}

/// A node of the syntax tree; each composite node owns its children.
#[derive(Debug)]
pub enum Node {
    Plain(PlainNode),
    Unary(UnaryNode),
    Binary(BinaryNode),
}

/// The result of a binary action where it is determined without float
/// arithmetic; `None` where a float request decides it.
pub open spec fn binary_exact(action: BinaryAction, l: Number, r: Number) -> Option<Number> {
    if action == BinaryAction::Div && is_zero(r) {
        Some(Number::Flt(NAN_BITS))
    } else {
        match (l, r) {
            (Number::Int(a), Number::Int(b)) => match action {
                BinaryAction::Add => Some(Number::Int(vstd::wrapping::i128_specs::wrapping_add(a, b))),
                BinaryAction::Sub => Some(Number::Int(vstd::wrapping::i128_specs::wrapping_sub(a, b))),
                BinaryAction::Mul => Some(Number::Int(vstd::wrapping::i128_specs::wrapping_mul(a, b))),
                BinaryAction::Div => Some(Number::Int(trunc_div(a, b))),
                BinaryAction::Pow => if b >= 0 {
                    Some(Number::Int(wrapping_pow(a, b as u32)))
                } else {
                    None
                },
            },
            _ => None,
        }
    }
}

/// The result of a unary action where it is determined without float
/// arithmetic; `None` for the named functions.
pub open spec fn unary_exact(action: UnaryAction, n: Number) -> Option<Number> {
    match action {
        UnaryAction::Neg => Some(neg_spec(n)),
        UnaryAction::Iden => Some(n),
        UnaryAction::Func(_) => None,
    }
}

/// The value of a tree where no float arithmetic decides it. Where this is
/// `None`, evaluation yields some float.
pub open spec fn exact_value(n: Node) -> Option<Number>
    decreases n,
{
    match n {
        Node::Plain(p) => Some(p.0),
        Node::Unary(u) => match exact_value(*u.operand) {
            Some(v) => unary_exact(u.actor, v),
            None => None,
        },
        Node::Binary(b) => {
            let l = exact_value(*b.left);
            let r = exact_value(*b.right);
            if b.actor == BinaryAction::Div && r is Some && is_zero(r->0) {
                Some(Number::Flt(NAN_BITS))
            } else if l is Some && r is Some {
                binary_exact(b.actor, l->0, r->0)
            } else {
                None
            }
        },
    }
}

/// Whether `v` is the result of `action` on `l` and `r` when float requests
/// are answered by `f`: the exact result where there is one, otherwise a
/// float that `f` answered for the action on the operands' binary64 forms.
pub open spec fn binary_result<F: Fn(FloatOp) -> u64>(
    f: &F,
    action: BinaryAction,
    l: Number,
    r: Number,
    v: Number,
) -> bool {
    match binary_exact(action, l, r) {
        Some(e) => v == e,
        None => v is Flt && exists|a: u64, b: u64|
            #![trigger float_of(f, l, a), float_of(f, r, b)]
            float_of(f, l, a) && float_of(f, r, b) && f.ensures(
                (FloatOp::Binary(action, a, b),),
                v->Flt_0,
            ),
    }
}

/// Whether `v` is the result of `action` on `n` when float requests are
/// answered by `f`: the exact result for a sign, otherwise a float that `f`
/// answered for the function on the operand's binary64 form.
pub open spec fn unary_result<F: Fn(FloatOp) -> u64>(
    f: &F,
    action: UnaryAction,
    n: Number,
    v: Number,
) -> bool {
    match unary_exact(action, n) {
        Some(e) => v == e,
        None => v is Flt && exists|a: u64|
            #[trigger] float_of(f, n, a) && f.ensures(
                (FloatOp::Function(action->Func_0, a),),
                v->Flt_0,
            ),
    }
}

/// The values computed at each node of a tree during one evaluation.
pub ghost enum Trace {
    Leaf(Number),
    One(Number, Box<Trace>),
    Two(Number, Box<Trace>, Box<Trace>),
}

/// The value computed at the root of a trace.
pub open spec fn trace_value(t: Trace) -> Number {
    match t {
        Trace::Leaf(v) => v,
        Trace::One(v, _) => v,
        Trace::Two(v, _, _) => v,
    }
}

/// Whether `t` records an evaluation of `n` with float requests answered by
/// `f`: each node's value is its action's result on its children's values.
pub open spec fn traces<F: Fn(FloatOp) -> u64>(f: &F, n: Node, t: Trace) -> bool
    decreases n,
{
    match (n, t) {
        (Node::Plain(p), Trace::Leaf(v)) => v == p.0,
        (Node::Unary(u), Trace::One(v, c)) => traces(f, *u.operand, *c) && unary_result(
            f,
            u.actor,
            trace_value(*c),
            v,
        ),
        (Node::Binary(b), Trace::Two(v, l, r)) => traces(f, *b.left, *l) && traces(f, *b.right, *r)
            && binary_result(f, b.actor, trace_value(*l), trace_value(*r), v),
        _ => false,
    }
}

/// Whether `v` is the value of the tree when float requests are answered by
/// `f`: children first, then the node's action on their values.
pub open spec fn evaluates<F: Fn(FloatOp) -> u64>(f: &F, n: Node, v: Number) -> bool {
    exists|t: Trace| #[trigger] traces(f, n, t) && trace_value(t) == v
}

/// The numbers at the leaves, left to right.
pub open spec fn leaves(n: Node) -> Seq<Number>
    decreases n,
{
    match n {
        Node::Plain(p) => seq![p.0],
        Node::Unary(u) => leaves(*u.operand),
        Node::Binary(b) => leaves(*b.left) + leaves(*b.right),
    }
}

/// The branch marker put before a child's first line.
pub open spec fn branch() -> Seq<char> {
    "`-- "@
}

/// The marker put before the further lines of a child that a sibling follows.
pub open spec fn continuation() -> Seq<char> {
    "|   "@
}

/// The indentation put before the further lines of the last child.
pub open spec fn indentation() -> Seq<char> {
    "    "@
}

/// `lines` with `first` put before the first line and `rest` before the others.
pub open spec fn prefixed(lines: Seq<Seq<char>>, first: Seq<char>, rest: Seq<char>) -> Seq<Seq<char>> {
    Seq::new(lines.len(), |i: int| if i == 0 { first + lines[i] } else { rest + lines[i] })
}

/// The label of a binary action.
pub open spec fn binary_label(a: BinaryAction) -> Seq<char> {
    match a {
        BinaryAction::Add => "Op(+)"@,
        BinaryAction::Sub => "Op(-)"@,
        BinaryAction::Mul => "Op(*)"@,
        BinaryAction::Div => "Op(/)"@,
        BinaryAction::Pow => "Op(^)"@,
    }
}

/// The name of a function.
pub open spec fn function_name(f: Function) -> Seq<char> {
    match f {
        Function::Sin => "sin"@,
        Function::Cos => "cos"@,
        Function::Tan => "tan"@,
        Function::Sec => "sec"@,
        Function::Csc => "csc"@,
        Function::Cot => "cot"@,
        Function::Asin => "asin"@,
        Function::Acos => "acos"@,
        Function::Atan => "atan"@,
        Function::Asec => "asec"@,
        Function::Acsc => "acsc"@,
        Function::Acot => "acot"@,
    }
}

/// The label of a unary action.
pub open spec fn unary_label(a: UnaryAction) -> Seq<char> {
    match a {
        UnaryAction::Neg => "Op(-)"@,
        UnaryAction::Iden => "Op(+)"@,
        UnaryAction::Func(f) => "Func("@ + function_name(f) + ")"@,
    }
}

/// Whether `label` is the text of a leaf holding `n`: an integer's decimal
/// digits, or what `text` answered for a float.
pub open spec fn leaf_label<T: Fn(u64) -> String>(text: &T, n: Number, label: Seq<char>) -> bool {
    match n {
        Number::Int(i) => label == decimal(i as int),
        Number::Flt(b) => exists|s: String| #[trigger] text.ensures((b,), s) && s@ == label,
    }
}

/// Whether `labels` are the texts of the leaves of `n`, left to right.
pub open spec fn labels_fit<T: Fn(u64) -> String>(
    text: &T,
    n: Node,
    labels: Seq<Seq<char>>,
) -> bool {
    &&& labels.len() == leaves(n).len()
    &&& forall|i: int|
        0 <= i < labels.len() ==> #[trigger] leaf_label(text, leaves(n)[i], labels[i])
}

/// Whether `text` accepts every float.
pub open spec fn total_text<T: Fn(u64) -> String>(text: &T) -> bool {
    forall|b: u64| #[trigger] text.requires((b,))
}

/// The tree diagram of a node whose leaves print as `labels`, one sequence
/// of characters per line. A node's label comes first; each child's lines
/// follow, the first behind the branch marker and the others behind the
/// continuation marker, or plain indentation for the last child.
pub open spec fn diagram(n: Node, labels: Seq<Seq<char>>) -> Seq<Seq<char>>
    decreases n,
{
    match n {
        Node::Plain(_) => seq![labels[0]],
        Node::Unary(u) => seq![unary_label(u.actor)] + prefixed(
            diagram(*u.operand, labels),
            branch(),
            continuation(),
        ),
        Node::Binary(b) => {
            let k = leaves(*b.left).len() as int;
            seq![binary_label(b.actor)] + prefixed(
                diagram(*b.left, labels.take(k)),
                branch(),
                continuation(),
            ) + prefixed(diagram(*b.right, labels.skip(k)), branch(), indentation())
        },
    }
}

/// The number of lines in a node's diagram.
pub open spec fn line_count(n: Node) -> nat
    decreases n,
{
    match n {
        Node::Plain(_) => 1,
        Node::Unary(u) => 1 + line_count(*u.operand),
        Node::Binary(b) => 1 + line_count(*b.left) + line_count(*b.right),
    }
}

/// The characters of each line.
pub open spec fn lines_view(v: Vec<String>) -> Seq<Seq<char>> {
    Seq::new(v@.len(), |i: int| v@[i]@)
}

impl BinaryAction {
    /// Applies this action to two numbers. Integers stay integers except for a
    /// negative power; a divisor equal to zero gives not-a-number; otherwise
    /// both operands become floats and `f` answers the request.
    pub fn evaluate<F: Fn(FloatOp) -> u64>(&self, left: Number, right: Number, f: &F) -> (r:
        Number)
        requires
            total(f),
        ensures
            binary_result(f, *self, left, right, r),
    {
        if *self == BinaryAction::Div && right.is_zero() {
            return Number::nan();
        }
        match (left, right) {
            (Number::Int(a), Number::Int(b)) => match self {
                BinaryAction::Add => Number::Int(a.wrapping_add(b)),
                BinaryAction::Sub => Number::Int(a.wrapping_sub(b)),
                BinaryAction::Mul => Number::Int(a.wrapping_mul(b)),
                BinaryAction::Div => Number::Int(int_div(a, b)),
                BinaryAction::Pow => {
                    if b >= 0 {
                        Number::Int(int_pow(a, b as u32))
                    } else {
                        let x = f(FloatOp::OfInt(a));
                        let y = f(FloatOp::OfInt(b));
                        let z = f(FloatOp::Binary(*self, x, y));
                        proof {
                            assert(float_of(f, left, x) && float_of(f, right, y));
                        }
                        Number::Flt(z)
                    }
                },
            },
            _ => {
                let x = left.to_float(f);
                let y = right.to_float(f);
                let z = f(FloatOp::Binary(*self, x, y));
                proof {
                    assert(float_of(f, left, x) && float_of(f, right, y));
                }
                Number::Flt(z)
            },
        }
    }

    /// The label of this action, `Op(+)` and the like.
    pub fn label(&self) -> (r: String)
        ensures
            r@ == binary_label(*self),
    {
        match self {
            BinaryAction::Add => String::from_str("Op(+)"),
            BinaryAction::Sub => String::from_str("Op(-)"),
            BinaryAction::Mul => String::from_str("Op(*)"),
            BinaryAction::Div => String::from_str("Op(/)"),
            BinaryAction::Pow => String::from_str("Op(^)"),
        }
    }
}

impl Function {
    /// The name of this function, `sin` and the like.
    pub fn name(&self) -> (r: &'static str)
        ensures
            r@ == function_name(*self),
    {
        match self {
            Function::Sin => "sin",
            Function::Cos => "cos",
            Function::Tan => "tan",
            Function::Sec => "sec",
            Function::Csc => "csc",
            Function::Cot => "cot",
            Function::Asin => "asin",
            Function::Acos => "acos",
            Function::Atan => "atan",
            Function::Asec => "asec",
            Function::Acsc => "acsc",
            Function::Acot => "acot",
        }
    }
}

impl UnaryAction {
    /// Applies this action to a number: negation keeps the representation,
    /// identity returns it, a named function yields the float that `f` answers.
    pub fn evaluate<F: Fn(FloatOp) -> u64>(&self, operand: Number, f: &F) -> (r: Number)
        requires
            total(f),
        ensures
            unary_result(f, *self, operand, r),
    {
        match self {
            UnaryAction::Neg => operand.neg(),
            UnaryAction::Iden => operand,
            UnaryAction::Func(func) => UnaryAction::evaluate_function(func, operand, f),
        }
    }

    fn evaluate_function<F: Fn(FloatOp) -> u64>(func: &Function, operand: Number, f: &F) -> (r:
        Number)
        requires
            total(f),
        ensures
            r is Flt,
            exists|a: u64|
                #[trigger] float_of(f, operand, a) && f.ensures(
                    (FloatOp::Function(*func, a),),
                    r->Flt_0,
                ),
    {
        let x = operand.to_float(f);
        let y = f(FloatOp::Function(*func, x));
        proof {
            assert(float_of(f, operand, x));
        }
        Number::Flt(y)
    }

    /// The label of this action: `Op(-)`, `Op(+)` or `Func(name)`.
    pub fn label(&self) -> (r: String)
        ensures
            r@ == unary_label(*self),
    {
        match self {
            UnaryAction::Neg => String::from_str("Op(-)"),
            UnaryAction::Iden => String::from_str("Op(+)"),
            UnaryAction::Func(f) => String::from_str("Func(").concat(f.name()).concat(")"),
        }
    }
}

/// `lines` with `first` put before the first line and `rest` before the others.
fn prefix_lines(lines: Vec<String>, first: &str, rest: &str) -> (r: Vec<String>)
    ensures
        r.len() == lines.len(),
        lines_view(r) == prefixed(lines_view(lines), first@, rest@),
{
    let mut out: Vec<String> = Vec::new();
    let mut i: usize = 0;
    while i < lines.len()
        invariant
            i <= lines.len(),
            out.len() == i,
            lines_view(out) == prefixed(lines_view(lines), first@, rest@).take(i as int),
        decreases lines.len() - i,
    {
        let p = if i == 0 { first } else { rest };
        let line = String::from_str(p).concat(lines[i].as_str());
        let ghost before = out@;
        out.push(line);
        proof {
            assert(out@ == before.push(line));
            assert(lines_view(out) =~= prefixed(lines_view(lines), first@, rest@).take(i + 1)) by {
                assert forall|k: int| 0 <= k < i + 1 implies #[trigger] lines_view(out)[k] == prefixed(
                    lines_view(lines),
                    first@,
                    rest@,
                )[k] by {
                    if k < i {
                        assert(lines_view(out)[k] == before[k]@);
                        assert(before[k]@ == prefixed(lines_view(lines), first@, rest@).take(i as int)[k]);
                    }
                }
            }
        }
        i += 1;
    }
    proof {
        assert(lines_view(out) =~= prefixed(lines_view(lines), first@, rest@));
    }
    out
}

impl PlainNode {
    /// A leaf holding `value`.
    pub fn new(value: Number) -> (r: PlainNode)
        ensures
            r.0 == value,
    {
        PlainNode(value)
    }
}

impl UnaryNode {
    /// A node applying `actor` to `operand`.
    pub fn new(actor: UnaryAction, operand: Node) -> (r: UnaryNode)
        ensures
            r == (UnaryNode { actor, operand: Box::new(operand) }),
    {
        UnaryNode { actor, operand: Box::new(operand) }
    }
}

impl BinaryNode {
    /// A node applying `actor` to `left` and `right`.
    pub fn new(left: Node, actor: BinaryAction, right: Node) -> (r: BinaryNode)
        ensures
            r == (BinaryNode { left: Box::new(left), actor, right: Box::new(right) }),
    {
        BinaryNode { left: Box::new(left), actor, right: Box::new(right) }
    }
}

impl Node {
    /// The value of the tree: children first, left before right, then the
    /// node's action.
    pub fn evaluate<F: Fn(FloatOp) -> u64>(&self, f: &F) -> (r: Number)
        requires
            total(f),
        ensures
            evaluates(f, *self, r),
            match exact_value(*self) {
                Some(v) => r == v,
                None => r is Flt,
            },
    {
        let (r, _trace) = self.evaluate_traced(f);
        r
    }

    fn evaluate_traced<F: Fn(FloatOp) -> u64>(&self, f: &F) -> (r: (Number, Ghost<Trace>))
        requires
            total(f),
        ensures
            traces(f, *self, r.1@),
            trace_value(r.1@) == r.0,
            match exact_value(*self) {
                Some(v) => r.0 == v,
                None => r.0 is Flt,
            },
        decreases self,
    {
        match self {
            Node::Plain(p) => (p.0, Ghost(Trace::Leaf(p.0))),
            Node::Unary(u) => {
                let (v, Ghost(ct)) = u.operand.evaluate_traced(f);
                let r = u.actor.evaluate(v, f);
                (r, Ghost(Trace::One(r, Box::new(ct))))
            },
            Node::Binary(b) => {
                let (l, Ghost(lt)) = b.left.evaluate_traced(f);
                let (r, Ghost(rt)) = b.right.evaluate_traced(f);
                let v = b.actor.evaluate(l, r, f);
                (v, Ghost(Trace::Two(v, Box::new(lt), Box::new(rt))))
            },
        }
    }

    /// The tree diagram of this node, one string per line. Integer leaves
    /// print in decimal, float leaves as `text` prints them.
    pub fn to_tree<T: Fn(u64) -> String>(&self, text: &T) -> (r: Vec<String>)
        requires
            total_text(text),
        ensures
            r.len() == line_count(*self),
            exists|labels: Seq<Seq<char>>|
                labels_fit(text, *self, labels) && lines_view(r) == diagram(*self, labels),
    {
        let (lines, Ghost(labels)) = self.render(text);
        proof {
            lemma_diagram_len(*self, labels);
        }
        lines
    }

    fn render<T: Fn(u64) -> String>(&self, text: &T) -> (r: (Vec<String>, Ghost<Seq<Seq<char>>>))
        requires
            total_text(text),
        ensures
            labels_fit(text, *self, r.1@),
            lines_view(r.0) == diagram(*self, r.1@),
        decreases self,
    {
        match self {
            Node::Plain(p) => {
                let mut out: Vec<String> = Vec::new();
                let t = p.0.to_text(text);
                out.push(t);
                let ghost labels = seq![t@];
                proof {
                    assert(leaves(*self) == seq![p.0]);
                    assert(leaf_label(text, leaves(*self)[0], labels[0]));
                    assert(lines_view(out) =~= diagram(*self, labels));
                }
                (out, Ghost(labels))
            },
            Node::Unary(u) => {
                let mut out: Vec<String> = Vec::new();
                out.push(u.actor.label());
                let (sub, Ghost(labels)) = u.operand.render(text);
                let mut sub = prefix_lines(sub, "`-- ", "|   ");
                out.append(&mut sub);
                proof {
                    assert(lines_view(out) =~= diagram(*self, labels));
                }
                (out, Ghost(labels))
            },
            Node::Binary(b) => {
                let mut out: Vec<String> = Vec::new();
                out.push(b.actor.label());
                let (left, Ghost(ll)) = b.left.render(text);
                let (right, Ghost(rl)) = b.right.render(text);
                let mut left = prefix_lines(left, "`-- ", "|   ");
                let mut right = prefix_lines(right, "`-- ", "    ");
                out.append(&mut left);
                out.append(&mut right);
                let ghost labels = ll + rl;
                proof {
                    let k = leaves(*b.left).len() as int;
                    assert(labels.take(k) =~= ll);
                    assert(labels.skip(k) =~= rl);
                    assert(lines_view(out) =~= diagram(*self, labels));
                    let lv = leaves(*self);
                    assert(lv == leaves(*b.left) + leaves(*b.right));
                    assert forall|i: int|
                        0 <= i < labels.len() implies #[trigger] leaf_label(text, lv[i], labels[i]) by {
                        if i < k {
                            assert(lv[i] == leaves(*b.left)[i]);
                            assert(leaf_label(text, leaves(*b.left)[i], ll[i]));
                        } else {
                            assert(lv[i] == leaves(*b.right)[i - k]);
                            assert(leaf_label(text, leaves(*b.right)[i - k], rl[i - k]));
                        }
                    }
                }
                (out, Ghost(labels))
            },
        }
    }
}

/// A diagram has one line per node, whatever its leaves print as.
pub proof fn lemma_diagram_len(n: Node, labels: Seq<Seq<char>>)
    ensures
        diagram(n, labels).len() == line_count(n),
    decreases n,
{
    match n {
        Node::Plain(_) => {},
        Node::Unary(u) => lemma_diagram_len(*u.operand, labels),
        Node::Binary(b) => {
            let k = leaves(*b.left).len() as int;
            lemma_diagram_len(*b.left, labels.take(k));
            lemma_diagram_len(*b.right, labels.skip(k));
        },
    }
}

impl Number {
    /// This number as text: an integer in decimal, a float as `text` prints it.
    pub fn to_text<T: Fn(u64) -> String>(&self, text: &T) -> (r: String)
        requires
            total_text(text),
        ensures
            leaf_label(text, *self, r@),
    {
        match self {
            Number::Int(i) => int_text(*i),
            Number::Flt(b) => {
                let s = text(*b);
                proof {
                    assert(text.ensures((*b,), s));
                }
                s
            },
        }
    }
}

} // verus!
