use cal_core::{
    BinaryAction, BinaryNode, FloatOp, Function, Node, Number, Operator, ParseError, Parser,
    PlainNode, Token, TokenKind, UnaryAction, UnaryNode,
};

fn float_op(op: FloatOp) -> u64 {
    let r = match op {
        FloatOp::OfInt(n) => n as f64,
        FloatOp::Binary(action, a, b) => {
            let (a, b) = (f64::from_bits(a), f64::from_bits(b));
            match action {
                BinaryAction::Add => a + b,
                BinaryAction::Sub => a - b,
                BinaryAction::Mul => a * b,
                BinaryAction::Div => a / b,
                BinaryAction::Pow => a.powf(b),
            }
        }
        FloatOp::Function(func, a) => {
            let x = f64::from_bits(a);
            match func {
                Function::Sin => x.sin(),
                Function::Cos => x.cos(),
                Function::Tan => x.tan(),
                Function::Sec => x.cos().recip(),
                Function::Csc => x.sin().recip(),
                Function::Cot => x.tan().recip(),
                Function::Asin => x.asin(),
                Function::Acos => x.acos(),
                Function::Atan => x.atan(),
                Function::Asec => x.recip().acos(),
                Function::Acsc => x.recip().asin(),
                Function::Acot => x.recip().atan(),
            }
        }
    };
    r.to_bits()
}

fn close(a: u64, b: u64) -> bool {
    (f64::from_bits(a) - f64::from_bits(b)).abs() < f64::EPSILON * 1e3
}

fn less(a: u64, b: u64) -> bool {
    f64::from_bits(a) < f64::from_bits(b)
}

fn text(a: u64) -> String {
    f64::from_bits(a).to_string()
}

fn function_named(name: &str) -> Function {
    match name {
        "sin" => Function::Sin,
        "cos" => Function::Cos,
        "tan" => Function::Tan,
        "sec" => Function::Sec,
        "csc" => Function::Csc,
        "cot" => Function::Cot,
        "asin" => Function::Asin,
        "acos" => Function::Acos,
        "atan" => Function::Atan,
        "asec" => Function::Asec,
        "acsc" => Function::Acsc,
        "acot" => Function::Acot,
        _ => panic!("unknown function {}", name),
    }
}

fn lex(source: &str) -> Vec<Token> {
    let chars: Vec<char> = source.chars().collect();
    let mut tokens = Vec::new();
    let mut i = 0;
    while i < chars.len() {
        let c = chars[i];
        let start = i;
        let kind = if c.is_whitespace() {
            i += 1;
            continue;
        } else if c.is_ascii_digit() || c == '.' {
            while i < chars.len() && (chars[i].is_ascii_digit() || chars[i] == '.') {
                i += 1;
            }
            let text: String = chars[start..i].iter().collect();
            if text.contains('.') {
                TokenKind::Flt(text.parse::<f64>().unwrap().to_bits())
            } else {
                TokenKind::Int(text.parse::<i128>().unwrap())
            }
        } else if c.is_ascii_alphabetic() {
            while i < chars.len() && chars[i].is_ascii_alphabetic() {
                i += 1;
            }
            let text: String = chars[start..i].iter().collect();
            TokenKind::Func(function_named(&text))
        } else {
            i += 1;
            match c {
                '+' => TokenKind::Op(Operator::Plus),
                '-' => TokenKind::Op(Operator::Minus),
                '*' => TokenKind::Op(Operator::Star),
                '/' => TokenKind::Op(Operator::Slash),
                '^' => TokenKind::Op(Operator::Caret),
                '(' => TokenKind::LeftParen,
                ')' => TokenKind::RightParen,
                _ => panic!("unexpected character {}", c),
            }
        };
        tokens.push(Token::new(kind, start));
    }
    tokens
}

fn parse(source: &str) -> Result<Node, ParseError> {
    let mut parser = Parser::new(lex(source));
    parser.parse()
}

fn eval(source: &str) -> Number {
    parse(source).unwrap().evaluate(&float_op)
}

fn flt(x: f64) -> Number {
    Number::Flt(x.to_bits())
}

fn int_leaf(i: i128) -> Node {
    Node::Plain(PlainNode::new(Number::Int(i)))
}

#[test]
fn test_parser_int() {
    let node = parse("7 + 6 * 2 - 4 * (8 + 3)");

    assert!(node.is_ok());

    let value = node.unwrap().evaluate(&float_op);

    assert_eq!(value, Number::Int(-25));
}

#[test]
fn test_parser_flt() {
    let node = parse("7.0 + 6 * 2 - 4 * (8 + 3)");

    assert!(node.is_ok());

    let value = node.unwrap().evaluate(&float_op);

    assert_eq!(value, flt(-25.0));
}

#[test]
fn test_parser_int_unary_op() {
    let node = parse("7 * -5");

    assert!(node.is_ok());

    let value = node.unwrap().evaluate(&float_op);

    assert_eq!(value, Number::Int(-35));
}

#[test]
fn test_parser_flt_unary_op() {
    let node = parse("7.0 * -5");

    assert!(node.is_ok());

    let value = node.unwrap().evaluate(&float_op);

    assert_eq!(value, flt(-35.0));
}

#[test]
fn sum_of_two_literals_is_exact() {
    assert_eq!(eval("2 + 3"), Number::Int(5));
    assert_eq!(
        eval("170141183460469231731687303715884105727 + 1"),
        Number::Int(i128::MIN)
    );
}

#[test]
fn reparsing_gives_equal_values() {
    let source = "7 + 6 * 2 - 4 * (8 + 3) / 3";
    assert_eq!(eval(source), eval(source));
    assert_eq!(eval(source), Number::Int(5));
}

#[test]
fn division_by_literal_zero_is_nan() {
    assert_eq!(eval("1 / 0"), Number::nan());
    assert_eq!(eval("1.5 / 0"), Number::nan());
    assert_eq!(eval("3 / 0.0"), Number::nan());
    assert!(eval("2 * (5 / 0) + 1").is_nan());
    let nan = eval("1 / 0");
    assert!(!nan.equals(&nan, &float_op, &close));
    assert!(!nan.equals(&Number::Int(0), &float_op, &close));
    assert_eq!(nan.compare(&nan, &float_op, &close, &less), None);
}

#[test]
fn precedence_and_associativity() {
    assert_eq!(eval("10 - 3 - 2"), Number::Int(5));
    assert_eq!(eval("100 / 10 / 5"), Number::Int(2));
    assert_eq!(eval("2 ^ 3 ^ 2"), Number::Int(512));
    assert_eq!(eval("2 * 3 ^ 2"), Number::Int(18));
}

#[test]
fn unary_minus_binds_to_the_atomic() {
    assert_eq!(eval("-2 ^ 2"), Number::Int(4));
    assert_eq!(eval("-(2 + 3)"), Number::Int(-5));
    assert_eq!(eval("+4"), Number::Int(4));
    assert!(matches!(parse("--4"), Err(ParseError::InvalidUnaryOperator(_))));
}

#[test]
fn unmatched_left_parenthesis_is_end_of_input() {
    assert!(matches!(parse("(1 + 2"), Err(ParseError::UnexpectedEOF)));
}

#[test]
fn stray_right_parenthesis_reports_its_offset() {
    assert!(matches!(parse("1 + 2)"), Err(ParseError::MismatchRightParen(5))));
    assert!(matches!(parse(")"), Err(ParseError::MismatchRightParen(0))));
    assert!(matches!(parse("(1 2"), Err(ParseError::MismatchRightParen(3))));
}

#[test]
fn empty_input_and_missing_operand() {
    assert!(matches!(parse(""), Err(ParseError::UnexpectedEOF)));
    assert!(matches!(parse("1 +"), Err(ParseError::UnexpectedEOF)));
}

#[test]
fn operator_in_operand_position_is_invalid() {
    let e = parse("2 * * 3");
    assert!(matches!(e, Err(ParseError::InvalidUnaryOperator(t)) if t.start_index == 4));
}

#[test]
fn integer_arithmetic_wraps_and_truncates() {
    assert_eq!(eval("7 / 2"), Number::Int(3));
    assert_eq!(eval("-7 / 2"), Number::Int(-3));
    assert_eq!(eval("2 ^ 127"), Number::Int(i128::MIN));
    assert_eq!(eval("3 ^ 0"), Number::Int(1));
    assert_eq!(eval("2 ^ -1"), flt(0.5));
    assert_eq!(eval("2.0 ^ 3"), flt(8.0));
}

#[test]
fn functions_yield_floats() {
    assert_eq!(eval("sin 0"), flt(0.0));
    assert_eq!(eval("cos(0)"), flt(1.0));
    let v = eval("tan(1)");
    assert!(v.equals(&flt(1.0f64.tan()), &float_op, &close));
}

#[test]
fn binary_node_over_two_leaves_renders_three_lines() {
    let node = Node::Binary(BinaryNode::new(int_leaf(1), BinaryAction::Add, int_leaf(2)));
    assert_eq!(node.to_tree(&text), vec!["Op(+)", "`-- 1", "`-- 2"]);
}

#[test]
fn nested_tree_renders_with_markers() {
    let node = parse("1 + 2 * -3").unwrap();
    assert_eq!(
        node.to_tree(&text),
        vec!["Op(+)", "`-- 1", "`-- Op(*)", "    `-- 2", "    `-- Op(-)", "        `-- 3"]
    );
    let node = parse("(1 - 2) / 4").unwrap();
    assert_eq!(
        node.to_tree(&text),
        vec!["Op(/)", "`-- Op(-)", "|   `-- 1", "|   `-- 2", "`-- 4"]
    );
    let node = Node::Unary(UnaryNode::new(UnaryAction::Func(Function::Asin), int_leaf(-12)));
    assert_eq!(node.to_tree(&text), vec!["Func(asin)", "`-- -12"]);
    let node = parse("2.5").unwrap();
    assert_eq!(node.to_tree(&text), vec!["2.5"]);
}

#[test]
fn tolerant_comparison() {
    let a = flt(0.1 + 0.2);
    assert!(a.equals(&flt(0.3), &float_op, &close));
    assert!(Number::Int(3).equals(&flt(3.0), &float_op, &close));
    assert!(!Number::Int(3).equals(&Number::Int(4), &float_op, &close));
    assert_eq!(Number::Int(3).compare(&Number::Int(4), &float_op, &close, &less), Some(std::cmp::Ordering::Less));
    assert_eq!(a.compare(&flt(0.3), &float_op, &close, &less), Some(std::cmp::Ordering::Equal));
    assert_eq!(flt(2.0).compare(&Number::Int(1), &float_op, &close, &less), Some(std::cmp::Ordering::Greater));
}

#[test]
fn negation_keeps_representation() {
    assert_eq!(Number::Int(5).neg(), Number::Int(-5));
    assert_eq!(flt(2.5).neg(), flt(-2.5));
    assert_eq!(Number::Int(i128::MIN).neg(), Number::Int(i128::MIN));
}

#[test]
fn divisor_within_tolerance_of_zero_is_nan() {
    assert_eq!(eval("1 / 0.0000000000001"), Number::nan());
    assert!(!eval("1 / 0.000000000001").is_nan());
    assert!(Number::Flt((-0.0f64).to_bits()).is_zero());
    assert!(!Number::Int(1).is_zero());
}

#[test]
fn conversions_from_integer_widths() {
    assert_eq!(Number::from(200u8), Number::Int(200));
    assert_eq!(Number::from(-5i8), Number::Int(-5));
    assert_eq!(Number::from(u64::MAX), Number::Int(u64::MAX as i128));
    assert_eq!(Number::from(i128::MIN), Number::Int(i128::MIN));
}

#[test]
fn integers_print_in_decimal() {
    assert_eq!(Number::Int(0).to_text(&text), "0");
    assert_eq!(Number::Int(-1204).to_text(&text), "-1204");
    assert_eq!(
        Number::Int(i128::MIN).to_text(&text),
        "-170141183460469231731687303715884105728"
    );
    assert_eq!(flt(-0.5).to_text(&text), "-0.5");
}

#[test]
fn large_exponent_is_fast_and_wraps() {
    assert_eq!(eval("1 ^ 4000000000"), Number::Int(1));
    assert_eq!(eval("2 ^ 200"), Number::Int(0));
    assert_eq!(eval("(0 - 1) ^ 4000000001"), Number::Int(-1));
}

#[test]
fn actions_apply_to_numbers() {
    assert_eq!(BinaryAction::Mul.evaluate(Number::Int(6), flt(0.5), &float_op), flt(3.0));
    assert_eq!(BinaryAction::Sub.evaluate(Number::Int(i128::MIN), Number::Int(1), &float_op), Number::Int(i128::MAX));
    assert_eq!(UnaryAction::Neg.evaluate(flt(1.5), &float_op), flt(-1.5));
    assert_eq!(UnaryAction::Iden.evaluate(Number::Int(9), &float_op), Number::Int(9));
    assert_eq!(UnaryAction::Func(Function::Cos).evaluate(Number::Int(0), &float_op), flt(1.0));
    assert_eq!(BinaryAction::Div.evaluate(Number::Int(i128::MIN), Number::Int(-1), &float_op), Number::Int(i128::MIN));
}

#[test]
fn equal_infinities_compare_equal() {
    let inf = eval("2.0 ^ 2000");
    assert_eq!(inf, flt(f64::INFINITY));
    assert_eq!(inf.compare(&inf, &float_op, &close, &less), Some(std::cmp::Ordering::Equal));
    let ninf = flt(f64::NEG_INFINITY);
    assert_eq!(ninf.compare(&ninf, &float_op, &close, &less), Some(std::cmp::Ordering::Equal));
    assert_eq!(ninf.compare(&inf, &float_op, &close, &less), Some(std::cmp::Ordering::Less));
    assert_eq!(inf.compare(&Number::Int(5), &float_op, &close, &less), Some(std::cmp::Ordering::Greater));
}

#[test]
fn literals_fold_by_precedence() {
    assert_eq!(eval("1 + 2 * 3"), Number::Int(7));
    assert_eq!(eval("9 - 4 - 2"), Number::Int(3));
    assert_eq!(eval("100 / 7 / 3"), Number::Int(4));
    assert_eq!(eval("4 * 5 - 6"), Number::Int(14));
}

#[test]
fn float_requests_carry_the_operands() {
    assert_eq!(eval("sin 2"), flt(2.0f64.sin()));
    assert_eq!(eval("acot(4)"), flt(0.25f64.atan()));
    assert_eq!(eval("3 - 0.5"), flt(2.5));
    assert_eq!(eval("0.5 - 3"), flt(-2.5));
    assert_eq!(eval("1 / 4.0"), flt(0.25));
}
