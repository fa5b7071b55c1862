use vstd::prelude::*;

use crate::ast::{
    binary_exact, binary_label, branch, continuation, diagram, evaluates, exact_value, indentation,
    labels_fit, leaf_label, leaves, prefixed, trace_value, traces, unary_exact, BinaryAction, Node,
    PlainNode, Trace,
};
use crate::number::{
    float_of, is_zero, trunc_div, FloatOp, Number, MAGNITUDE_MASK, NAN_BITS, SIGN_BIT,
    TOLERANCE_BITS,
};
use crate::parser::{
    additive, atomic, binary, expr, expr_rest, factor, multiplicative, parse_tokens, power, term,
    term_rest, ParseError,
};
use crate::text::decimal;
use crate::token::{Operator, Token, TokenKind};

verus! {

/// An integer leaf.
pub open spec fn int_leaf(i: i128) -> Node {
    Node::Plain(PlainNode(Number::Int(i)))
}

/// Parsing two integer literals joined by `+` gives their sum as an exact
/// integer: the two's complement sum, which is the mathematical sum whenever
/// that fits in 128 bits.
pub proof fn sum_of_two_literals(a: i128, b: i128, at_a: usize, at_plus: usize, at_b: usize)
    ensures
        ({
            let toks = seq![
                Token { kind: TokenKind::Int(a), start_index: at_a },
                Token { kind: TokenKind::Op(Operator::Plus), start_index: at_plus },
                Token { kind: TokenKind::Int(b), start_index: at_b },
            ];
            &&& parse_tokens(toks) == Ok::<Node, crate::parser::ParseError>(
                binary(int_leaf(a), BinaryAction::Add, int_leaf(b)),
            )
            &&& exact_value(binary(int_leaf(a), BinaryAction::Add, int_leaf(b))) == Some(
                Number::Int(vstd::wrapping::i128_specs::wrapping_add(a, b)),
            )
            &&& i128::MIN <= a + b <= i128::MAX ==> exact_value(
                binary(int_leaf(a), BinaryAction::Add, int_leaf(b)),
            ) == Some(Number::Int((a + b) as i128))
        }),
{
    let toks = seq![
        Token { kind: TokenKind::Int(a), start_index: at_a },
        Token { kind: TokenKind::Op(Operator::Plus), start_index: at_plus },
        Token { kind: TokenKind::Int(b), start_index: at_b },
    ];
    assert(atomic(toks, 0) == Ok::<(Node, int), crate::parser::ParseError>((int_leaf(a), 1)));
    assert(factor(toks, 0) == atomic(toks, 0));
    assert(power(toks, 0) == factor(toks, 0));
    assert(multiplicative(toks[1].kind) is None);
    assert(term_rest(toks, int_leaf(a), 1) == Ok::<(Node, int), crate::parser::ParseError>((int_leaf(a), 1)));
    assert(term(toks, 0) == Ok::<(Node, int), crate::parser::ParseError>((int_leaf(a), 1)));
    assert(atomic(toks, 2) == Ok::<(Node, int), crate::parser::ParseError>((int_leaf(b), 3)));
    assert(factor(toks, 2) == atomic(toks, 2));
    assert(power(toks, 2) == factor(toks, 2));
    assert(term_rest(toks, int_leaf(b), 3) == Ok::<(Node, int), crate::parser::ParseError>((int_leaf(b), 3)));
    assert(term(toks, 2) == Ok::<(Node, int), crate::parser::ParseError>((int_leaf(b), 3)));
    assert(additive(toks[1].kind) == Some(BinaryAction::Add));
    let sum = binary(int_leaf(a), BinaryAction::Add, int_leaf(b));
    assert(expr_rest(toks, sum, 3) == Ok::<(Node, int), crate::parser::ParseError>((sum, 3)));
    assert(expr_rest(toks, int_leaf(a), 1) == expr_rest(toks, sum, 3));
    assert(expr(toks, 0) == Ok::<(Node, int), crate::parser::ParseError>((sum, 3)));
    assert(parse_tokens(toks) == Ok::<Node, crate::parser::ParseError>(sum));
    assert(exact_value(int_leaf(a)) == Some(Number::Int(a)));
    assert(exact_value(int_leaf(b)) == Some(Number::Int(b)));
    assert(exact_value(sum) == Some(Number::Int(vstd::wrapping::i128_specs::wrapping_add(a, b))));
}

/// Parsing is a function of the tokens: equal token sequences give equal
/// results, and equal trees have equal exact values.
pub proof fn parsing_is_deterministic(t1: Seq<Token>, t2: Seq<Token>)
    requires
        t1 == t2,
    ensures
        parse_tokens(t1) == parse_tokens(t2),
        parse_tokens(t1) is Ok ==> exact_value(parse_tokens(t1)->Ok_0) == exact_value(
            parse_tokens(t2)->Ok_0,
        ),
{
}

/// Integer zero and both float zeros compare equal to zero.
pub proof fn zeros_are_zero()
    ensures
        is_zero(Number::Int(0)),
        is_zero(Number::Flt(0)),
        is_zero(Number::Flt(SIGN_BIT)),
{
    assert(0u64 & MAGNITUDE_MASK < TOLERANCE_BITS) by (bit_vector);
    assert(0x8000_0000_0000_0000u64 & 0x7fff_ffff_ffff_ffffu64 < 0x3d4f_4000_0000_0000u64) by (bit_vector);
}

/// Dividing by a subtree whose value is zero gives not-a-number, whatever
/// the dividend.
pub proof fn division_by_zero_is_nan(left: Node, right: Node)
    requires
        exact_value(right) is Some,
        is_zero(exact_value(right)->0),
    ensures
        exact_value(binary(left, BinaryAction::Div, right)) == Some(Number::Flt(NAN_BITS)),
{
}

/// Dividing by a literal zero, integer or float of either sign, gives
/// not-a-number, whatever the dividend.
pub proof fn division_by_literal_zero_is_nan(left: Node, zero: Number)
    requires
        zero == Number::Int(0) || zero == Number::Flt(0) || zero == Number::Flt(SIGN_BIT),
    ensures
        exact_value(binary(left, BinaryAction::Div, Node::Plain(PlainNode(zero)))) == Some(
            Number::Flt(NAN_BITS),
        ),
{
    zeros_are_zero();
    division_by_zero_is_nan(left, Node::Plain(PlainNode(zero)));
}

/// A binary node over two leaves renders as three lines: the operator's
/// label, then each leaf's text behind the branch marker.
pub proof fn binary_over_two_leaves_renders<T: Fn(u64) -> String>(
    text: &T,
    a: Number,
    action: BinaryAction,
    b: Number,
    labels: Seq<Seq<char>>,
)
    requires
        labels_fit(text, binary(Node::Plain(PlainNode(a)), action, Node::Plain(PlainNode(b))), labels),
    ensures
        diagram(binary(Node::Plain(PlainNode(a)), action, Node::Plain(PlainNode(b))), labels)
            == seq![binary_label(action), branch() + labels[0], branch() + labels[1]],
{
    let n = binary(Node::Plain(PlainNode(a)), action, Node::Plain(PlainNode(b)));
    assert(leaves(Node::Plain(PlainNode(a))) == seq![a]);
    assert(leaves(Node::Plain(PlainNode(b))) == seq![b]);
    assert(leaves(n) == leaves(Node::Plain(PlainNode(a))) + leaves(Node::Plain(PlainNode(b))));
    assert(labels.len() == 2);
    assert(labels.take(1)[0] == labels[0]);
    assert(labels.skip(1)[0] == labels[1]);
    let pa = Node::Plain(PlainNode(a));
    let pb = Node::Plain(PlainNode(b));
    assert(diagram(pa, labels.take(1)) == seq![labels[0]]);
    assert(diagram(pb, labels.skip(1)) == seq![labels[1]]);
    assert(prefixed(seq![labels[0]], branch(), continuation()) =~= seq![branch() + labels[0]]);
    assert(prefixed(seq![labels[1]], branch(), indentation()) =~= seq![branch() + labels[1]]);
    assert(diagram(n, labels) =~= seq![
        binary_label(action),
        branch() + labels[0],
        branch() + labels[1],
    ]);
}

/// For two integer leaves, those texts are their decimal digits.
pub proof fn binary_over_two_int_leaves_renders<T: Fn(u64) -> String>(
    text: &T,
    a: i128,
    action: BinaryAction,
    b: i128,
    labels: Seq<Seq<char>>,
)
    requires
        labels_fit(text, binary(int_leaf(a), action, int_leaf(b)), labels),
    ensures
        diagram(binary(int_leaf(a), action, int_leaf(b)), labels) == seq![
            binary_label(action),
            branch() + decimal(a as int),
            branch() + decimal(b as int),
        ],
{
    let n = binary(int_leaf(a), action, int_leaf(b));
    binary_over_two_leaves_renders(text, Number::Int(a), action, Number::Int(b), labels);
    assert(leaves(int_leaf(a)) == seq![Number::Int(a)]);
    assert(leaves(int_leaf(b)) == seq![Number::Int(b)]);
    assert(leaves(n) == leaves(int_leaf(a)) + leaves(int_leaf(b)));
    assert(leaves(n) =~= seq![Number::Int(a), Number::Int(b)]);
    assert(leaf_label(text, leaves(n)[0], labels[0]));
    assert(leaf_label(text, leaves(n)[1], labels[1]));
}

/// Whether `f` answers each float request with one value only.
pub open spec fn answers_uniquely<F: Fn(FloatOp) -> u64>(f: &F) -> bool {
    forall|op: FloatOp, x: u64, y: u64|
        #![trigger f.ensures((op,), x), f.ensures((op,), y)]
        f.ensures((op,), x) && f.ensures((op,), y) ==> x == y
}

proof fn lemma_traces_agree<F: Fn(FloatOp) -> u64>(f: &F, n: Node, t1: Trace, t2: Trace)
    requires
        answers_uniquely(f),
        traces(f, n, t1),
        traces(f, n, t2),
    ensures
        trace_value(t1) == trace_value(t2),
    decreases n,
{
    match n {
        Node::Plain(_) => {},
        Node::Unary(u) => {
            let c1 = *t1->One_1;
            let c2 = *t2->One_1;
            lemma_traces_agree(f, *u.operand, c1, c2);
            let v = trace_value(c1);
            if unary_exact(u.actor, v) is None {
                let a1 = choose|a: u64| #[trigger] float_of(f, v, a) && f.ensures(
                    (FloatOp::Function(u.actor->Func_0, a),),
                    trace_value(t1)->Flt_0,
                );
                let a2 = choose|a: u64| #[trigger] float_of(f, v, a) && f.ensures(
                    (FloatOp::Function(u.actor->Func_0, a),),
                    trace_value(t2)->Flt_0,
                );
                if v is Int {
                    assert(f.ensures((FloatOp::OfInt(v->Int_0),), a1));
                    assert(f.ensures((FloatOp::OfInt(v->Int_0),), a2));
                }
                assert(a1 == a2);
                assert(f.ensures((FloatOp::Function(u.actor->Func_0, a1),), trace_value(t2)->Flt_0));
            }
        },
        Node::Binary(b) => {
            let (l1, r1) = (*t1->Two_1, *t1->Two_2);
            let (l2, r2) = (*t2->Two_1, *t2->Two_2);
            lemma_traces_agree(f, *b.left, l1, l2);
            lemma_traces_agree(f, *b.right, r1, r2);
            let (lv, rv) = (trace_value(l1), trace_value(r1));
            if binary_exact(b.actor, lv, rv) is None {
                let (a1, b1) = choose|a: u64, c: u64|
                    #![trigger float_of(f, lv, a), float_of(f, rv, c)]
                    float_of(f, lv, a) && float_of(f, rv, c) && f.ensures(
                        (FloatOp::Binary(b.actor, a, c),),
                        trace_value(t1)->Flt_0,
                    );
                let (a2, b2) = choose|a: u64, c: u64|
                    #![trigger float_of(f, lv, a), float_of(f, rv, c)]
                    float_of(f, lv, a) && float_of(f, rv, c) && f.ensures(
                        (FloatOp::Binary(b.actor, a, c),),
                        trace_value(t2)->Flt_0,
                    );
                if lv is Int {
                    assert(f.ensures((FloatOp::OfInt(lv->Int_0),), a1));
                    assert(f.ensures((FloatOp::OfInt(lv->Int_0),), a2));
                }
                if rv is Int {
                    assert(f.ensures((FloatOp::OfInt(rv->Int_0),), b1));
                    assert(f.ensures((FloatOp::OfInt(rv->Int_0),), b2));
                }
                assert(a1 == a2 && b1 == b2);
                assert(f.ensures((FloatOp::Binary(b.actor, a1, b1),), trace_value(t2)->Flt_0));
            }
        },
    }
}

/// Evaluation is deterministic: where float requests are answered with one
/// value each, two evaluations of the same tree give the same number, the
/// same variant and, for a float, the same bits.
pub proof fn evaluation_is_deterministic<F: Fn(FloatOp) -> u64>(
    f: &F,
    n: Node,
    v1: Number,
    v2: Number,
)
    requires
        answers_uniquely(f),
        evaluates(f, n, v1),
        evaluates(f, n, v2),
    ensures
        v1 == v2,
{
    let t1 = choose|t: Trace| #[trigger] traces(f, n, t) && trace_value(t) == v1;
    let t2 = choose|t: Trace| #[trigger] traces(f, n, t) && trace_value(t) == v2;
    lemma_traces_agree(f, n, t1, t2);
}

/// Where each float prints one way only, a tree's leaf texts, and so its
/// diagram, are determined.
pub proof fn rendering_is_deterministic<T: Fn(u64) -> String>(
    text: &T,
    n: Node,
    l1: Seq<Seq<char>>,
    l2: Seq<Seq<char>>,
)
    requires
        forall|b: u64, s1: String, s2: String|
            #![trigger text.ensures((b,), s1), text.ensures((b,), s2)]
            text.ensures((b,), s1) && text.ensures((b,), s2) ==> s1 == s2,
        labels_fit(text, n, l1),
        labels_fit(text, n, l2),
    ensures
        l1 == l2,
        diagram(n, l1) == diagram(n, l2),
{
    assert forall|i: int| 0 <= i < l1.len() implies l1[i] == l2[i] by {
        assert(leaf_label(text, leaves(n)[i], l1[i]));
        assert(leaf_label(text, leaves(n)[i], l2[i]));
    }
    assert(l1 =~= l2);
}

/// Removing a marker of four characters from each prefixed line gives the
/// lines back.
pub proof fn unprefixing_recovers_lines(lines: Seq<Seq<char>>, first: Seq<char>, rest: Seq<char>)
    requires
        first.len() == 4,
        rest.len() == 4,
    ensures
        prefixed(lines, first, rest).len() == lines.len(),
        forall|i: int|
            0 <= i < lines.len() ==> (#[trigger] prefixed(lines, first, rest)[i]).skip(4)
                == lines[i],
{
    assert forall|i: int| 0 <= i < lines.len() implies (#[trigger] prefixed(
        lines,
        first,
        rest,
    )[i]).skip(4) == lines[i] by {
        let p = if i == 0 { first } else { rest };
        assert((p + lines[i]).skip(4) =~= lines[i]);
    }
}

/// A binary node's diagram is its label, then the left child's diagram
/// re-indented, then the right child's; removing the four-character markers
/// recovers each child's diagram exactly.
pub proof fn re_indenting_recovers_children(
    l: Node,
    action: BinaryAction,
    r: Node,
    labels: Seq<Seq<char>>,
)
    ensures
        ({
            let k = leaves(l).len() as int;
            let d = diagram(binary(l, action, r), labels);
            let dl = diagram(l, labels.take(k));
            let dr = diagram(r, labels.skip(k));
            &&& d.len() == 1 + dl.len() + dr.len()
            &&& d[0] == binary_label(action)
            &&& d.subrange(1, 1 + dl.len() as int) == prefixed(dl, branch(), continuation())
            &&& d.subrange(1 + dl.len() as int, d.len() as int) == prefixed(
                dr,
                branch(),
                indentation(),
            )
            &&& forall|i: int| 0 <= i < dl.len() ==> #[trigger] d[1 + i].skip(4) == dl[i]
            &&& forall|j: int| 0 <= j < dr.len() ==> #[trigger] d[1 + dl.len() + j].skip(4) == dr[j]
        }),
{
    let k = leaves(l).len() as int;
    let d = diagram(binary(l, action, r), labels);
    let dl = diagram(l, labels.take(k));
    let dr = diagram(r, labels.skip(k));
    let pl = prefixed(dl, branch(), continuation());
    let pr = prefixed(dr, branch(), indentation());
    reveal_strlit("`-- ");
    reveal_strlit("|   ");
    reveal_strlit("    ");
    assert(d == seq![binary_label(action)] + pl + pr);
    unprefixing_recovers_lines(dl, branch(), continuation());
    unprefixing_recovers_lines(dr, branch(), indentation());
    assert(d.subrange(1, 1 + dl.len() as int) =~= pl);
    assert(d.subrange(1 + dl.len() as int, d.len() as int) =~= pr);
    assert forall|i: int| 0 <= i < dl.len() implies #[trigger] d[1 + i].skip(4) == dl[i] by {
        assert(d[1 + i] == pl[i]);
    }
    assert forall|j: int| 0 <= j < dr.len() implies #[trigger] d[1 + dl.len() + j].skip(4)
        == dr[j] by {
        assert(d[1 + dl.len() + j] == pr[j]);
    }
}

/// A token sequence of five tokens: literal, operator, literal, operator, literal.
pub open spec fn three_literals(
    a: i128,
    op1: Operator,
    b: i128,
    op2: Operator,
    c: i128,
    at: Seq<usize>,
) -> Seq<Token> {
    seq![
        Token { kind: TokenKind::Int(a), start_index: at[0] },
        Token { kind: TokenKind::Op(op1), start_index: at[1] },
        Token { kind: TokenKind::Int(b), start_index: at[2] },
        Token { kind: TokenKind::Op(op2), start_index: at[3] },
        Token { kind: TokenKind::Int(c), start_index: at[4] },
    ]
}

proof fn lemma_literal_power(toks: Seq<Token>, p: int)
    requires
        0 <= p < toks.len(),
        toks[p].kind is Int,
        p + 1 == toks.len() || toks[p + 1].kind != TokenKind::Op(Operator::Caret),
    ensures
        power(toks, p) == Ok::<(Node, int), ParseError>((int_leaf(toks[p].kind->Int_0), p + 1)),
{
    assert(atomic(toks, p) == Ok::<(Node, int), ParseError>((int_leaf(toks[p].kind->Int_0), p + 1)));
    assert(factor(toks, p) == atomic(toks, p));
}

proof fn lemma_wrap_small(x: int)
    requires
        i128::MIN <= x <= i128::MAX,
    ensures
        vstd::wrapping::i128_specs::signed_crop(x) == x,
{
    let r = u128::MAX as int + 1;
    if x >= 0 {
        vstd::arithmetic::div_mod::lemma_small_mod(x as nat, r as nat);
    } else {
        vstd::arithmetic::div_mod::lemma_small_mod((x + r) as nat, r as nat);
        vstd::arithmetic::div_mod::lemma_mod_add_multiples_vanish(x, r);
    }
}

/// `*` binds tighter than `+`: `a + b * c` parses as `a + (b * c)` and, where
/// nothing overflows, evaluates to the integer `a + b * c`.
pub proof fn product_binds_tighter_than_sum(a: i128, b: i128, c: i128, at: Seq<usize>)
    requires
        at.len() == 5,
    ensures
        parse_tokens(three_literals(a, Operator::Plus, b, Operator::Star, c, at)) == Ok::<
            Node,
            ParseError,
        >(
            binary(
                int_leaf(a),
                BinaryAction::Add,
                binary(int_leaf(b), BinaryAction::Mul, int_leaf(c)),
            ),
        ),
        i128::MIN <= b * c <= i128::MAX && i128::MIN <= a + b * c <= i128::MAX ==> exact_value(
            binary(
                int_leaf(a),
                BinaryAction::Add,
                binary(int_leaf(b), BinaryAction::Mul, int_leaf(c)),
            ),
        ) == Some(Number::Int((a + b * c) as i128)),
{
    let toks = three_literals(a, Operator::Plus, b, Operator::Star, c, at);
    let la = int_leaf(a);
    let bc = binary(int_leaf(b), BinaryAction::Mul, int_leaf(c));
    let sum = binary(la, BinaryAction::Add, bc);
    lemma_literal_power(toks, 0);
    lemma_literal_power(toks, 2);
    lemma_literal_power(toks, 4);
    assert(term_rest(toks, la, 1) == Ok::<(Node, int), ParseError>((la, 1)));
    assert(term(toks, 0) == Ok::<(Node, int), ParseError>((la, 1)));
    assert(term_rest(toks, bc, 5) == Ok::<(Node, int), ParseError>((bc, 5)));
    assert(multiplicative(toks[3].kind) == Some(BinaryAction::Mul));
    assert(term_rest(toks, int_leaf(b), 3) == term_rest(toks, bc, 5));
    assert(term(toks, 2) == Ok::<(Node, int), ParseError>((bc, 5)));
    assert(additive(toks[1].kind) == Some(BinaryAction::Add));
    assert(expr_rest(toks, sum, 5) == Ok::<(Node, int), ParseError>((sum, 5)));
    assert(expr_rest(toks, la, 1) == expr_rest(toks, sum, 5));
    assert(expr(toks, 0) == Ok::<(Node, int), ParseError>((sum, 5)));
    assert(exact_value(int_leaf(a)) == Some(Number::Int(a)));
    assert(exact_value(int_leaf(b)) == Some(Number::Int(b)));
    assert(exact_value(int_leaf(c)) == Some(Number::Int(c)));
    if i128::MIN <= b * c <= i128::MAX && i128::MIN <= a + b * c <= i128::MAX {
        lemma_wrap_small(b * c);
        assert(exact_value(bc) == Some(Number::Int((b * c) as i128)));
    }
}

/// `-` groups to the left: `a - b - c` parses as `(a - b) - c` and, where
/// nothing overflows, evaluates to the integer `(a - b) - c`.
pub proof fn difference_groups_left(a: i128, b: i128, c: i128, at: Seq<usize>)
    requires
        at.len() == 5,
    ensures
        parse_tokens(three_literals(a, Operator::Minus, b, Operator::Minus, c, at)) == Ok::<
            Node,
            ParseError,
        >(
            binary(
                binary(int_leaf(a), BinaryAction::Sub, int_leaf(b)),
                BinaryAction::Sub,
                int_leaf(c),
            ),
        ),
        i128::MIN <= a - b <= i128::MAX && i128::MIN <= a - b - c <= i128::MAX ==> exact_value(
            binary(
                binary(int_leaf(a), BinaryAction::Sub, int_leaf(b)),
                BinaryAction::Sub,
                int_leaf(c),
            ),
        ) == Some(Number::Int((a - b - c) as i128)),
{
    let toks = three_literals(a, Operator::Minus, b, Operator::Minus, c, at);
    let la = int_leaf(a);
    let lb = int_leaf(b);
    let lc = int_leaf(c);
    let ab = binary(la, BinaryAction::Sub, lb);
    let abc = binary(ab, BinaryAction::Sub, lc);
    lemma_literal_power(toks, 0);
    lemma_literal_power(toks, 2);
    lemma_literal_power(toks, 4);
    assert(term_rest(toks, la, 1) == Ok::<(Node, int), ParseError>((la, 1)));
    assert(term(toks, 0) == Ok::<(Node, int), ParseError>((la, 1)));
    assert(term_rest(toks, lb, 3) == Ok::<(Node, int), ParseError>((lb, 3)));
    assert(term(toks, 2) == Ok::<(Node, int), ParseError>((lb, 3)));
    assert(term_rest(toks, lc, 5) == Ok::<(Node, int), ParseError>((lc, 5)));
    assert(term(toks, 4) == Ok::<(Node, int), ParseError>((lc, 5)));
    assert(additive(toks[1].kind) == Some(BinaryAction::Sub));
    assert(additive(toks[3].kind) == Some(BinaryAction::Sub));
    assert(expr_rest(toks, abc, 5) == Ok::<(Node, int), ParseError>((abc, 5)));
    assert(expr_rest(toks, ab, 3) == expr_rest(toks, abc, 5));
    assert(expr_rest(toks, la, 1) == expr_rest(toks, ab, 3));
    assert(expr(toks, 0) == Ok::<(Node, int), ParseError>((abc, 5)));
    assert(exact_value(la) == Some(Number::Int(a)));
    assert(exact_value(lb) == Some(Number::Int(b)));
    assert(exact_value(lc) == Some(Number::Int(c)));
    if i128::MIN <= a - b <= i128::MAX && i128::MIN <= a - b - c <= i128::MAX {
        assert(exact_value(ab) == Some(Number::Int((a - b) as i128)));
        assert(exact_value(abc) == Some(Number::Int((a - b - c) as i128)));
    }
}

/// `/` groups to the left: `a / b / c` parses as `(a / b) / c` and, for
/// non-zero divisors, evaluates to the truncated quotients in that order.
pub proof fn quotient_groups_left(a: i128, b: i128, c: i128, at: Seq<usize>)
    requires
        at.len() == 5,
    ensures
        parse_tokens(three_literals(a, Operator::Slash, b, Operator::Slash, c, at)) == Ok::<
            Node,
            ParseError,
        >(
            binary(
                binary(int_leaf(a), BinaryAction::Div, int_leaf(b)),
                BinaryAction::Div,
                int_leaf(c),
            ),
        ),
        b != 0 && c != 0 ==> exact_value(
            binary(
                binary(int_leaf(a), BinaryAction::Div, int_leaf(b)),
                BinaryAction::Div,
                int_leaf(c),
            ),
        ) == Some(Number::Int(trunc_div(trunc_div(a, b), c))),
{
    let toks = three_literals(a, Operator::Slash, b, Operator::Slash, c, at);
    let la = int_leaf(a);
    let lb = int_leaf(b);
    let lc = int_leaf(c);
    let ab = binary(la, BinaryAction::Div, lb);
    let abc = binary(ab, BinaryAction::Div, lc);
    lemma_literal_power(toks, 0);
    lemma_literal_power(toks, 2);
    lemma_literal_power(toks, 4);
    assert(multiplicative(toks[1].kind) == Some(BinaryAction::Div));
    assert(multiplicative(toks[3].kind) == Some(BinaryAction::Div));
    assert(term_rest(toks, abc, 5) == Ok::<(Node, int), ParseError>((abc, 5)));
    assert(term_rest(toks, ab, 3) == term_rest(toks, abc, 5));
    assert(term_rest(toks, la, 1) == term_rest(toks, ab, 3));
    assert(term(toks, 0) == Ok::<(Node, int), ParseError>((abc, 5)));
    assert(expr_rest(toks, abc, 5) == Ok::<(Node, int), ParseError>((abc, 5)));
    assert(expr(toks, 0) == Ok::<(Node, int), ParseError>((abc, 5)));
    assert(exact_value(la) == Some(Number::Int(a)));
    assert(exact_value(lb) == Some(Number::Int(b)));
    assert(exact_value(lc) == Some(Number::Int(c)));
    if b != 0 && c != 0 {
        assert(exact_value(ab) == Some(Number::Int(trunc_div(a, b))));
    }
}

} // verus!
