use script_core::environment::Environment;
use script_core::eval::{binary_values, unary_value, Evaluator, RuntimeError};
use script_core::expr::{Expr, ExprLiteral};
use script_core::token::{Token, TokenType};
use script_core::value::{number_eq, number_le, number_lt, number_neg, FloatOp, Value};

fn arith(op: FloatOp) -> u32 {
    let f = f32::from_bits;
    match op {
        FloatOp::Parse(text) => text.parse::<f32>().unwrap().to_bits(),
        FloatOp::Add(a, b) => (f(a) + f(b)).to_bits(),
        FloatOp::Subtract(a, b) => (f(a) - f(b)).to_bits(),
        FloatOp::Multiply(a, b) => (f(a) * f(b)).to_bits(),
        FloatOp::Divide(a, b) => (f(a) / f(b)).to_bits(),
    }
}

fn show(n: u32) -> String {
    format!("{}", f32::from_bits(n))
}

fn n(x: f32) -> Value {
    Value::Number(x.to_bits())
}

fn s(x: &str) -> Value {
    Value::String(x.to_string())
}

fn op(kind: TokenType, lexeme: &str) -> Token {
    Token::newToken(kind, lexeme.to_string(), None)
}

fn lit_num(text: &str) -> Box<Expr> {
    Box::new(Expr::Literal(ExprLiteral::Number(text.to_string())))
}

fn lit_str(text: &str) -> Box<Expr> {
    Box::new(Expr::Literal(ExprLiteral::String(text.to_string())))
}

fn var(name: &str) -> Box<Expr> {
    Box::new(Expr::Literal(ExprLiteral::Identifier(name.to_string())))
}

fn eval(e: &Expr) -> Result<Value, RuntimeError> {
    Evaluator::new().evaluate(e, &arith, &show)
}

fn is_number(v: &Value, x: f32) -> bool {
    matches!(v, Value::Number(b) if f32::from_bits(*b) == x)
}

fn is_bool(v: &Value, x: bool) -> bool {
    matches!(v, Value::Bool(b) if *b == x)
}

#[test]
fn concatenation_and_addition() {
    let v = binary_values(TokenType::Plus, s("a"), s("b"), &arith).unwrap();
    assert!(matches!(v, Value::String(ref t) if t == "ab"));
    let v = binary_values(TokenType::Plus, n(1.0), n(2.0), &arith).unwrap();
    assert!(is_number(&v, 3.0));
    let e = binary_values(TokenType::Plus, n(1.0), s("a"), &arith).unwrap_err();
    assert_eq!(e, "Operands must be numbers.");
    let e = binary_values(TokenType::Plus, s("a"), n(1.0), &arith).unwrap_err();
    assert_eq!(e, "Operands must be numbers.");
}

#[test]
fn addition_through_the_tree() {
    let e = Expr::Binary(op(TokenType::Plus, "+"), lit_num("1"), lit_num("2"));
    assert!(is_number(&eval(&e).unwrap(), 3.0));
    let e = Expr::Binary(op(TokenType::Plus, "+"), lit_str("a"), lit_str("b"));
    assert!(matches!(eval(&e).unwrap(), Value::String(ref t) if t == "ab"));
    let e = Expr::Binary(op(TokenType::Plus, "+"), lit_num("1"), lit_str("a"));
    let err = eval(&e).unwrap_err();
    assert_eq!(err.msg, "Operands must be numbers.");
    assert_eq!(err.exit, 70);
    assert_eq!(err.line, 0);
}

#[test]
fn grouping_times_three_is_nine() {
    let sum = Expr::Binary(op(TokenType::Plus, "+"), lit_num("1"), lit_num("2"));
    let e = Expr::Binary(op(TokenType::Star, "*"), Box::new(Expr::Grouping(Box::new(sum))), lit_num("3"));
    assert!(is_number(&eval(&e).unwrap(), 9.0));
}

#[test]
fn arithmetic_operators() {
    assert!(is_number(&binary_values(TokenType::Minus, n(5.0), n(7.0), &arith).unwrap(), -2.0));
    assert!(is_number(&binary_values(TokenType::Star, n(1.5), n(4.0), &arith).unwrap(), 6.0));
    assert!(is_number(&binary_values(TokenType::Slash, n(1.0), n(4.0), &arith).unwrap(), 0.25));
    let e = binary_values(TokenType::Star, s("a"), n(4.0), &arith).unwrap_err();
    assert_eq!(e, "Operands must be numbers.");
    let e = binary_values(TokenType::Minus, n(4.0), Value::Nil, &arith).unwrap_err();
    assert_eq!(e, "Operands must be numbers.");
}

#[test]
fn bang_follows_truthiness() {
    let bang = |v: Value| unary_value(TokenType::Bang, v).unwrap();
    assert!(is_bool(&bang(Value::Nil), true));
    assert!(is_bool(&bang(n(0.0)), true));
    assert!(is_bool(&bang(n(-0.0)), true));
    assert!(is_bool(&bang(n(1.0)), false));
    assert!(is_bool(&bang(s("")), true));
    assert!(is_bool(&bang(s("x")), false));
    assert!(is_bool(&bang(Value::Bool(false)), true));
    assert!(is_bool(&bang(Value::Bool(true)), false));
}

#[test]
fn bang_nil_through_the_tree() {
    let e = Expr::Unary(op(TokenType::Bang, "!"), Box::new(Expr::Literal(ExprLiteral::Nil)));
    assert!(is_bool(&eval(&e).unwrap(), true));
    let e = Expr::Unary(op(TokenType::Bang, "!"), lit_num("0"));
    assert!(is_bool(&eval(&e).unwrap(), true));
    let e = Expr::Unary(op(TokenType::Bang, "!"), lit_str("x"));
    assert!(is_bool(&eval(&e).unwrap(), false));
}

#[test]
fn negation() {
    assert!(is_number(&unary_value(TokenType::Minus, n(2.5)).unwrap(), -2.5));
    let e = unary_value(TokenType::Minus, s("a")).unwrap_err();
    assert_eq!(e, "Operand must be an number.");
    assert_eq!(f32::from_bits(number_neg(3.0f32.to_bits())), -3.0);
}

#[test]
fn equality_across_kinds_is_false() {
    let eq = |l: Value, r: Value| binary_values(TokenType::EqualEqual, l, r, &arith).unwrap();
    let ne = |l: Value, r: Value| binary_values(TokenType::BangEqual, l, r, &arith).unwrap();
    assert!(is_bool(&eq(n(1.0), s("1")), false));
    assert!(is_bool(&ne(n(1.0), s("1")), false));
    assert!(is_bool(&eq(Value::Nil, Value::Nil), false));
    assert!(is_bool(&ne(Value::Nil, Value::Nil), false));
    assert!(is_bool(&eq(Value::Bool(true), n(1.0)), false));
    assert!(is_bool(&ne(s("a"), Value::Nil), false));
}

#[test]
fn equality_within_kinds() {
    let eq = |l: Value, r: Value| binary_values(TokenType::EqualEqual, l, r, &arith).unwrap();
    let ne = |l: Value, r: Value| binary_values(TokenType::BangEqual, l, r, &arith).unwrap();
    assert!(is_bool(&eq(n(1.0), n(1.0)), true));
    assert!(is_bool(&ne(n(1.0), n(2.0)), true));
    assert!(is_bool(&eq(n(0.0), n(-0.0)), true));
    assert!(is_bool(&eq(n(f32::NAN), n(f32::NAN)), false));
    assert!(is_bool(&ne(n(f32::NAN), n(f32::NAN)), true));
    assert!(is_bool(&eq(s("ab"), s("ab")), true));
    assert!(is_bool(&ne(s("ab"), s("ac")), true));
    assert!(is_bool(&eq(Value::Bool(false), Value::Bool(false)), true));
    assert!(is_bool(&ne(Value::Bool(false), Value::Bool(true)), true));
}

#[test]
fn mismatched_equality_through_the_tree() {
    let e = Expr::Binary(op(TokenType::EqualEqual, "=="), lit_num("1"), lit_str("1"));
    assert!(is_bool(&eval(&e).unwrap(), false));
    let e = Expr::Binary(op(TokenType::BangEqual, "!="), lit_num("1"), lit_str("1"));
    assert!(is_bool(&eval(&e).unwrap(), false));
}

#[test]
fn comparisons() {
    let cmp = |k: TokenType, a: f32, b: f32| binary_values(k, n(a), n(b), &arith).unwrap();
    assert!(is_bool(&cmp(TokenType::LessThan, 1.0, 2.0), true));
    assert!(is_bool(&cmp(TokenType::LessThan, 2.0, 2.0), false));
    assert!(is_bool(&cmp(TokenType::LessThanEquals, 2.0, 2.0), true));
    assert!(is_bool(&cmp(TokenType::GreaterThan, -1.0, -2.0), true));
    assert!(is_bool(&cmp(TokenType::GreaterThanEquals, -3.0, -2.0), false));
    assert!(is_bool(&cmp(TokenType::LessThan, -0.0, 0.0), false));
    assert!(is_bool(&cmp(TokenType::LessThanEquals, f32::NAN, 1.0), false));
    assert!(is_bool(&cmp(TokenType::LessThan, f32::NEG_INFINITY, -1e30), true));
    let e = binary_values(TokenType::LessThan, s("a"), s("b"), &arith).unwrap_err();
    assert_eq!(e, "Operands must be numbers.");
}

#[test]
fn bit_pattern_comparisons_match_floats() {
    let samples = [0.0f32, -0.0, 1.0, -1.0, 2.5, -2.5, 1e-40, -1e-40, f32::INFINITY, f32::NEG_INFINITY, f32::NAN, 3e38];
    for &a in samples.iter() {
        for &b in samples.iter() {
            assert_eq!(number_eq(a.to_bits(), b.to_bits()), a == b);
            assert_eq!(number_lt(a.to_bits(), b.to_bits()), a < b);
            assert_eq!(number_le(a.to_bits(), b.to_bits()), a <= b);
        }
    }
}

#[test]
fn undefined_variable_read() {
    let err = eval(&var("nope")).unwrap_err();
    assert_eq!(err.msg, "Undefined variable 'nope'.");
    assert_eq!(err.exit, 70);
}

#[test]
fn assignment_needs_declaration() {
    let mut ev = Evaluator::new();
    let e = Expr::Assignment(var("x"), lit_num("6"));
    let err = ev.evaluate(&e, &arith, &show).unwrap_err();
    assert_eq!(err.msg, "invalid use of undeclared identifier 6");
    assert!(!ev.symbols.contains(&"x".to_string()));
    ev.symbols.define("x".to_string(), n(5.0));
    let v = ev.evaluate(&e, &arith, &show).unwrap();
    assert!(is_number(&v, 6.0));
    assert!(is_number(&ev.evaluate(&var("x"), &arith, &show).unwrap(), 6.0));
}

#[test]
fn assign_method() {
    let mut ev = Evaluator::new();
    let err = ev.assign(&"y".to_string(), s("hi"), &show).unwrap_err();
    assert_eq!(err.msg, "invalid use of undeclared identifier hi");
    ev.symbols.define("y".to_string(), Value::Nil);
    let v = ev.assign(&"y".to_string(), Value::Bool(true), &show).unwrap();
    assert!(is_bool(&v, true));
    assert!(is_bool(ev.symbols.get(&"y".to_string()).unwrap(), true));
}

#[test]
fn invalid_assignment_target() {
    let e = Expr::Assignment(lit_num("1"), lit_num("2"));
    let err = eval(&e).unwrap_err();
    assert_eq!(err.msg, "Invalid assignment target. Left-hand side must be an identifier.");
}

#[test]
fn left_operand_is_evaluated_first() {
    let mut ev = Evaluator::new();
    ev.symbols.define("a".to_string(), n(1.0));
    // (a = 2) + a
    let assign = Box::new(Expr::Grouping(Box::new(Expr::Assignment(var("a"), lit_num("2")))));
    let e = Expr::Binary(op(TokenType::Plus, "+"), assign, var("a"));
    assert!(is_number(&ev.evaluate(&e, &arith, &show).unwrap(), 4.0));
}

#[test]
fn error_carries_the_line_counter() {
    let mut ev = Evaluator::new();
    ev.line = 7;
    let err = ev.evaluate(&var("q"), &arith, &show).unwrap_err();
    assert_eq!(err.line, 7);
    let err = RuntimeError::new("m".to_string(), 3);
    assert_eq!((err.msg.as_str(), err.line, err.exit), ("m", 3, 70));
}

#[test]
fn literals() {
    let mut ev = Evaluator::new();
    assert!(is_bool(&ev.EvaluateLiteral(&ExprLiteral::Bool(true), &arith).unwrap(), true));
    assert!(matches!(ev.EvaluateLiteral(&ExprLiteral::Nil, &arith).unwrap(), Value::Nil));
    assert!(is_number(&ev.EvaluateLiteral(&ExprLiteral::Number("1.50".to_string()), &arith).unwrap(), 1.5));
    let v = ev.EvaluateLiteral(&ExprLiteral::String("s".to_string()), &arith).unwrap();
    assert!(matches!(v, Value::String(ref t) if t == "s"));
}

#[test]
fn eval_binary_and_unary_methods() {
    let mut ev = Evaluator::new();
    let v = ev.EvalBinary(&op(TokenType::Slash, "/"), &lit_num("9"), &lit_num("3"), &arith, &show).unwrap();
    assert!(is_number(&v, 3.0));
    let v = ev.EvalUnary(&op(TokenType::Minus, "-"), &lit_num("9"), &arith, &show).unwrap();
    assert!(is_number(&v, -9.0));
    let err = ev.EvalUnary(&op(TokenType::Minus, "-"), &lit_str("9"), &arith, &show).unwrap_err();
    assert_eq!(err.msg, "Operand must be an number.");
}

#[test]
fn value_rendering() {
    assert_eq!(n(1.0).render(&show), "1");
    assert_eq!(n(1.5).render(&show), "1.5");
    assert_eq!(Value::Nil.render(&show), "nil");
    assert_eq!(Value::Bool(false).render(&show), "false");
    assert_eq!(s("text").render(&show), "text");
}

#[test]
fn environment_rebinding() {
    let mut env = Environment::new();
    assert!(env.get(&"a".to_string()).is_none());
    env.define("a".to_string(), n(1.0));
    env.define("b".to_string(), n(2.0));
    env.define("a".to_string(), s("x"));
    assert!(matches!(env.get(&"a".to_string()), Some(Value::String(t)) if t == "x"));
    assert!(is_number(env.get(&"b".to_string()).unwrap(), 2.0));
    assert!(env.contains(&"b".to_string()));
    assert!(!env.contains(&"c".to_string()));
}
