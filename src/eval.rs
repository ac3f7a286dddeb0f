//! The evaluator: walks an expression against the variable table.
use vstd::prelude::*;

use crate::environment::Environment;
use crate::expr::{is_binary_op, is_unary_op, size, well_formed, Expr, ExprLiteral};
use crate::token::{Token, TokenType};
use crate::value::{
    compute, computes, float_result, negated, num_eq, num_le, num_lt, number_eq, number_le,
    number_lt, number_neg, renders, truthy, value_text, FloatOp, Val, Value,
};

verus! {

/// Failure code of every runtime error.
pub const RUNTIME_ERROR: i32 = 70;

/// A failure while running: message, the line counter at the time, and the
/// failure code.
#[derive(Debug)]
pub struct RuntimeError {
    pub msg: String,
    pub line: u32,
    pub exit: i32,
}

impl RuntimeError {
    pub fn new(msg: String, line: u32) -> (e: Self)
        ensures
            e.msg == msg,
            e.line == line,
            e.exit == RUNTIME_ERROR,
    {
        RuntimeError { msg, line, exit: RUNTIME_ERROR }
    }
}

/// What evaluating yields: a value, or the message of a runtime error.
pub type Outcome = Result<Val, Seq<char>>;

/// `e` is the runtime error with message `m` raised at `line`.
pub open spec fn is_runtime_error(e: RuntimeError, m: Seq<char>, line: u32) -> bool {
    e.msg@ == m && e.line == line && e.exit == RUNTIME_ERROR
}

/// The executable result `r` is the outcome `o`, with errors raised at `line`.
pub open spec fn yields(r: Result<Value, RuntimeError>, o: Outcome, line: u32) -> bool {
    match o {
        Ok(v) => r is Ok && r->Ok_0@ == v,
        Err(m) => r is Err && is_runtime_error(r->Err_0, m, line),
    }
}

pub open spec fn numbers_expected() -> Seq<char> {
    "Operands must be numbers."@
}

pub open spec fn number_expected() -> Seq<char> {
    "Operand must be an number."@
}

pub open spec fn bad_target() -> Seq<char> {
    "Invalid assignment target. Left-hand side must be an identifier."@
}

pub open spec fn undefined_variable(name: Seq<char>) -> Seq<char> {
    "Undefined variable '"@ + name + "'."@
}

pub open spec fn undeclared_assignment(value: Seq<char>) -> Seq<char> {
    "invalid use of undeclared identifier "@ + value
}

/// A prefix operator applied to a value: `-` negates a number, `!` negates
/// truthiness.
pub open spec fn unary_outcome(op: TokenType, v: Val) -> Outcome {
    if op == TokenType::Minus {
        match v {
            Val::Num(n) => Ok(Val::Num(negated(n))),
            _ => Err(number_expected()),
        }
    } else {
        Ok(Val::Bool(!truthy(v)))
    }
}

/// An arithmetic operator on two numbers, computed by `arith`.
pub open spec fn arith_outcome<A: Fn(FloatOp) -> u32>(op: TokenType, a: u32, b: u32, arith: &A) -> u32 {
    if op == TokenType::Star {
        float_result(arith, FloatOp::Multiply(a, b))
    } else if op == TokenType::Slash {
        float_result(arith, FloatOp::Divide(a, b))
    } else if op == TokenType::Plus {
        float_result(arith, FloatOp::Add(a, b))
    } else {
        float_result(arith, FloatOp::Subtract(a, b))
    }
}

/// A binary operator applied to two values. Arithmetic and ordering want two
/// numbers (`+` also joins two strings); `==` and `!=` compare numbers,
/// booleans and strings of one kind by value and are false for any other
/// pairing, so they never fail.
pub open spec fn binary_outcome<A: Fn(FloatOp) -> u32>(op: TokenType, l: Val, r: Val, arith: &A) -> Outcome {
    if op == TokenType::EqualEqual || op == TokenType::BangEqual {
        let eq = op == TokenType::EqualEqual;
        match (l, r) {
            (Val::Num(a), Val::Num(b)) => Ok(Val::Bool(if eq { num_eq(a, b) } else { !num_eq(a, b) })),
            (Val::Bool(a), Val::Bool(b)) => Ok(Val::Bool(if eq { a == b } else { a != b })),
            (Val::Str(a), Val::Str(b)) => Ok(Val::Bool(if eq { a == b } else { a != b })),
            _ => Ok(Val::Bool(false)),
        }
    } else if op == TokenType::Plus {
        match (l, r) {
            (Val::Num(a), Val::Num(b)) => Ok(Val::Num(arith_outcome(op, a, b, arith))),
            (Val::Str(a), Val::Str(b)) => Ok(Val::Str(a + b)),
            _ => Err(numbers_expected()),
        }
    } else {
        match (l, r) {
            (Val::Num(a), Val::Num(b)) => if op == TokenType::LessThan {
                Ok(Val::Bool(num_lt(a, b)))
            } else if op == TokenType::LessThanEquals {
                Ok(Val::Bool(num_le(a, b)))
            } else if op == TokenType::GreaterThan {
                Ok(Val::Bool(num_lt(b, a)))
            } else if op == TokenType::GreaterThanEquals {
                Ok(Val::Bool(num_le(b, a)))
            } else {
                Ok(Val::Num(arith_outcome(op, a, b, arith)))
            },
            _ => Err(numbers_expected()),
        }
    }
}

/// Value of a leaf: number text read by `arith`, a variable looked up in `env`.
pub open spec fn literal_outcome<A: Fn(FloatOp) -> u32>(
    l: ExprLiteral,
    env: Map<Seq<char>, Val>,
    arith: &A,
) -> Outcome {
    match l {
        ExprLiteral::Number(text) => Ok(Val::Num(float_result(arith, FloatOp::Parse(text)))),
        ExprLiteral::String(s) => Ok(Val::Str(s@)),
        ExprLiteral::Bool(b) => Ok(Val::Bool(b)),
        ExprLiteral::Nil => Ok(Val::Nil),
        ExprLiteral::Identifier(name) => if env.contains_key(name@) {
            Ok(env[name@])
        } else {
            Err(undefined_variable(name@))
        },
    }
}

/// Evaluating `e` against `env`: the outcome and the table afterwards.
/// Operands are evaluated left before right; the first error stops the walk.
pub open spec fn eval_spec<A: Fn(FloatOp) -> u32, S: Fn(u32) -> String>(
    e: Expr,
    env: Map<Seq<char>, Val>,
    arith: &A,
    show: &S,
) -> (Outcome, Map<Seq<char>, Val>)
    decreases e,
{
    match e {
        Expr::Literal(l) => (literal_outcome(l, env, arith), env),
        Expr::Grouping(inner) => eval_spec(*inner, env, arith, show),
        Expr::Unary(op, inner) => {
            let (o, env1) = eval_spec(*inner, env, arith, show);
            match o {
                Ok(v) => (unary_outcome(op.kind, v), env1),
                Err(m) => (Err(m), env1),
            }
        },
        Expr::Binary(op, l, r) => {
            let (lo, env1) = eval_spec(*l, env, arith, show);
            match lo {
                Ok(lv) => {
                    let (ro, env2) = eval_spec(*r, env1, arith, show);
                    match ro {
                        Ok(rv) => (binary_outcome(op.kind, lv, rv, arith), env2),
                        Err(m) => (Err(m), env2),
                    }
                },
                Err(m) => (Err(m), env1),
            }
        },
        Expr::Assignment(t, v) => match *t {
            Expr::Literal(ExprLiteral::Identifier(name)) => {
                let (vo, env1) = eval_spec(*v, env, arith, show);
                match vo {
                    Ok(val) => if env1.contains_key(name@) {
                        (Ok(val), env1.insert(name@, val))
                    } else {
                        (Err(undeclared_assignment(value_text(val, show))), env1)
                    },
                    Err(m) => (Err(m), env1),
                }
            },
            _ => (Err(bad_target()), env),
        },
    }
}

/// Applies the binary operator `op` to two values; an error is its message.
pub fn binary_values<A: Fn(FloatOp) -> u32>(op: TokenType, left: Value, right: Value, arith: &A) -> (r: Result<Value, String>)
    requires
        is_binary_op(op),
        computes(arith),
    ensures
        match binary_outcome(op, left@, right@, arith) {
            Ok(v) => r is Ok && r->Ok_0@ == v,
            Err(m) => r is Err && r->Err_0@ == m,
        },
{
    if op == TokenType::EqualEqual || op == TokenType::BangEqual {
        let eq = op == TokenType::EqualEqual;
        let same = match (&left, &right) {
            (Value::Number(a), Value::Number(b)) => number_eq(*a, *b),
            (Value::Bool(a), Value::Bool(b)) => *a == *b,
            (Value::String(a), Value::String(b)) => *a == *b,
            _ => return Ok(Value::Bool(false)),
        };
        return Ok(Value::Bool(if eq { same } else { !same }));
    }
    match (left, right) {
        (Value::Number(a), Value::Number(b)) => {
            if op == TokenType::LessThan {
                Ok(Value::Bool(number_lt(a, b)))
            } else if op == TokenType::LessThanEquals {
                Ok(Value::Bool(number_le(a, b)))
            } else if op == TokenType::GreaterThan {
                Ok(Value::Bool(number_lt(b, a)))
            } else if op == TokenType::GreaterThanEquals {
                Ok(Value::Bool(number_le(b, a)))
            } else if op == TokenType::Star {
                Ok(Value::Number(compute(arith, FloatOp::Multiply(a, b))))
            } else if op == TokenType::Slash {
                Ok(Value::Number(compute(arith, FloatOp::Divide(a, b))))
            } else if op == TokenType::Plus {
                Ok(Value::Number(compute(arith, FloatOp::Add(a, b))))
            } else {
                Ok(Value::Number(compute(arith, FloatOp::Subtract(a, b))))
            }
        },
        (Value::String(a), Value::String(b)) => if op == TokenType::Plus {
            let mut s = a;
            s.append(b.as_str());
            Ok(Value::String(s))
        } else {
            Err(String::from_str("Operands must be numbers."))
        },
        _ => Err(String::from_str("Operands must be numbers.")),
    }
}

/// Applies the prefix operator `op` to a value; an error is its message.
pub fn unary_value(op: TokenType, v: Value) -> (r: Result<Value, String>)
    requires
        is_unary_op(op),
    ensures
        match unary_outcome(op, v@) {
            Ok(x) => r is Ok && r->Ok_0@ == x,
            Err(m) => r is Err && r->Err_0@ == m,
        },
{
    if op == TokenType::Minus {
        match v {
            Value::Number(n) => Ok(Value::Number(number_neg(n))),
            _ => Err(String::from_str("Operand must be an number.")),
        }
    } else {
        Ok(Value::Bool(!v.is_truthy()))
    }
}

/// Evaluation state: the line counter reported with errors, and the variables.
pub struct Evaluator {
    pub line: u32,
    pub symbols: Environment,
}

impl Evaluator {
    /// The variable table is well formed.
    pub open spec fn wf(&self) -> bool {
        self.symbols.wf()
    }

    /// Line 0 and no variables.
    pub fn new() -> (e: Self)
        ensures
            e.wf(),
            e.line == 0,
            e.symbols@ == Map::<Seq<char>, Val>::empty(),
    {
        Evaluator { line: 0, symbols: Environment::new() }
    }

    /// Overwrites the binding of a declared variable and hands the value
    /// back; an undeclared name is an error naming the value.
    pub fn assign<S: Fn(u32) -> String>(&mut self, name: &String, right: Value, show: &S) -> (r:
        Result<Value, RuntimeError>)
        requires
            old(self).wf(),
            renders(show),
        ensures
            final(self).wf(),
            final(self).line == old(self).line,
            if old(self).symbols@.contains_key(name@) {
                r == Ok::<Value, RuntimeError>(right) && final(self).symbols@ == old(
                    self,
                ).symbols@.insert(name@, right@)
            } else {
                r is Err && is_runtime_error(
                    r->Err_0,
                    undeclared_assignment(value_text(right@, show)),
                    old(self).line,
                ) && final(self).symbols@ == old(self).symbols@
            },
    {
        if self.symbols.contains(name) {
            self.symbols.define(name.clone(), right.duplicate());
            Ok(right)
        } else {
            let mut msg = String::from_str("invalid use of undeclared identifier ");
            let text = right.render(show);
            msg.append(text.as_str());
            Err(RuntimeError::new(msg, self.line))
        }
    }

    /// Evaluates `expr`; variables it assigns stay changed, also when a later
    /// part of it fails.
    pub fn evaluate<A: Fn(FloatOp) -> u32, S: Fn(u32) -> String>(
        &mut self,
        expr: &Expr,
        arith: &A,
        show: &S,
    ) -> (r: Result<Value, RuntimeError>)
        requires
            old(self).wf(),
            well_formed(*expr),
            computes(arith),
            renders(show),
        ensures
            final(self).wf(),
            final(self).line == old(self).line,
            yields(r, eval_spec(*expr, old(self).symbols@, arith, show).0, old(self).line),
            final(self).symbols@ == eval_spec(*expr, old(self).symbols@, arith, show).1,
        decreases size(*expr), 1int,
    {
        match expr {
            Expr::Literal(v) => self.EvaluateLiteral(v, arith),
            Expr::Grouping(inner) => self.evaluate(inner, arith, show),
            Expr::Unary(op, inner) => self.EvalUnary(op, inner, arith, show),
            Expr::Assignment(left, right) => {
                match &**left {
                    Expr::Literal(ExprLiteral::Identifier(name)) => {
                        let value = match self.evaluate(right, arith, show) {
                            Ok(v) => v,
                            Err(e) => return Err(e),
                        };
                        match self.assign(name, value.duplicate(), show) {
                            Ok(_) => Ok(value),
                            Err(e) => Err(e),
                        }
                    },
                    _ => Err(
                        RuntimeError::new(
                            String::from_str(
                                "Invalid assignment target. Left-hand side must be an identifier.",
                            ),
                            self.line,
                        ),
                    ),
                }
            },
            Expr::Binary(op, left, right) => self.EvalBinary(op, left, right, arith, show),
        }
    }

    /// Evaluates both operands, left first, then applies the binary operator.
    #[allow(non_snake_case)]
    pub fn EvalBinary<A: Fn(FloatOp) -> u32, S: Fn(u32) -> String>(
        &mut self,
        op: &Token,
        left: &Box<Expr>,
        right: &Box<Expr>,
        arith: &A,
        show: &S,
    ) -> (r: Result<Value, RuntimeError>)
        requires
            old(self).wf(),
            is_binary_op(op.kind),
            well_formed(**left),
            well_formed(**right),
            computes(arith),
            renders(show),
        ensures
            final(self).wf(),
            final(self).line == old(self).line,
            yields(
                r,
                eval_spec(Expr::Binary(*op, *left, *right), old(self).symbols@, arith, show).0,
                old(self).line,
            ),
            final(self).symbols@ == eval_spec(
                Expr::Binary(*op, *left, *right),
                old(self).symbols@,
                arith,
                show,
            ).1,
        decreases size(**left) + size(**right) + 1, 0int,
    {
        let l = match self.evaluate(left, arith, show) {
            Ok(v) => v,
            Err(e) => return Err(e),
        };
        let r = match self.evaluate(right, arith, show) {
            Ok(v) => v,
            Err(e) => return Err(e),
        };
        match binary_values(op.kind, l, r, arith) {
            Ok(v) => Ok(v),
            Err(m) => Err(RuntimeError::new(m, self.line)),
        }
    }

    /// Evaluates the operand, then applies the prefix operator.
    #[allow(non_snake_case)]
    pub fn EvalUnary<A: Fn(FloatOp) -> u32, S: Fn(u32) -> String>(
        &mut self,
        op: &Token,
        expr: &Box<Expr>,
        arith: &A,
        show: &S,
    ) -> (r: Result<Value, RuntimeError>)
        requires
            old(self).wf(),
            is_unary_op(op.kind),
            well_formed(**expr),
            computes(arith),
            renders(show),
        ensures
            final(self).wf(),
            final(self).line == old(self).line,
            yields(
                r,
                eval_spec(Expr::Unary(*op, *expr), old(self).symbols@, arith, show).0,
                old(self).line,
            ),
            final(self).symbols@ == eval_spec(
                Expr::Unary(*op, *expr),
                old(self).symbols@,
                arith,
                show,
            ).1,
        decreases size(**expr) + 1, 0int,
    {
        let v = match self.evaluate(expr, arith, show) {
            Ok(v) => v,
            Err(e) => return Err(e),
        };
        match unary_value(op.kind, v) {
            Ok(x) => Ok(x),
            Err(m) => Err(RuntimeError::new(m, self.line)),
        }
    }

    /// The value of a leaf.
    #[allow(non_snake_case)]
    pub fn EvaluateLiteral<A: Fn(FloatOp) -> u32>(&mut self, literal: &ExprLiteral, arith: &A) -> (r:
        Result<Value, RuntimeError>)
        requires
            old(self).wf(),
            computes(arith),
        ensures
            *final(self) == *old(self),
            yields(r, literal_outcome(*literal, old(self).symbols@, arith), old(self).line),
    {
        match literal {
            ExprLiteral::Bool(b) => Ok(Value::Bool(*b)),
            ExprLiteral::String(s) => Ok(Value::String(s.clone())),
            ExprLiteral::Number(text) => Ok(Value::Number(compute(arith, FloatOp::Parse(text.clone())))),
            ExprLiteral::Identifier(name) => match self.symbols.get(name) {
                Some(v) => Ok(v.duplicate()),
                None => {
                    let mut msg = String::from_str("Undefined variable '");
                    msg.append(name.as_str());
                    msg.append("'.");
                    Err(RuntimeError::new(msg, self.line))
                },
            },
            ExprLiteral::Nil => Ok(Value::Nil),
        }
    }
}

/// Both values are numbers, both booleans, or both strings.
pub open spec fn same_kind(l: Val, r: Val) -> bool {
    match (l, r) {
        (Val::Num(_), Val::Num(_)) => true,
        (Val::Bool(_), Val::Bool(_)) => true,
        (Val::Str(_), Val::Str(_)) => true,
        _ => false,
    }
}

/// `==` and `!=` never fail: on any two values they yield a boolean, and on
/// values that are not both numbers, both booleans or both strings (`nil`
/// included) both of them yield `false`.
pub proof fn lemma_equality_never_fails<A: Fn(FloatOp) -> u32>(l: Val, r: Val, arith: &A)
    ensures
        binary_outcome(TokenType::EqualEqual, l, r, arith) is Ok,
        binary_outcome(TokenType::BangEqual, l, r, arith) is Ok,
        !same_kind(l, r) ==> binary_outcome(TokenType::EqualEqual, l, r, arith) == Ok::<
            Val,
            Seq<char>,
        >(Val::Bool(false)),
        !same_kind(l, r) ==> binary_outcome(TokenType::BangEqual, l, r, arith) == Ok::<
            Val,
            Seq<char>,
        >(Val::Bool(false)),
{
}

/// Evaluating an expression never declares a variable: the set of names in
/// the table is the same afterwards.
pub proof fn lemma_eval_keeps_names<A: Fn(FloatOp) -> u32, S: Fn(u32) -> String>(
    e: Expr,
    env: Map<Seq<char>, Val>,
    arith: &A,
    show: &S,
)
    ensures
        eval_spec(e, env, arith, show).1.dom() == env.dom(),
    decreases e,
{
    match e {
        Expr::Literal(_) => {},
        Expr::Grouping(inner) => lemma_eval_keeps_names(*inner, env, arith, show),
        Expr::Unary(_, inner) => lemma_eval_keeps_names(*inner, env, arith, show),
        Expr::Binary(_, l, r) => {
            lemma_eval_keeps_names(*l, env, arith, show);
            let env1 = eval_spec(*l, env, arith, show).1;
            lemma_eval_keeps_names(*r, env1, arith, show);
        },
        Expr::Assignment(t, v) => {
            lemma_eval_keeps_names(*v, env, arith, show);
            match *t {
                Expr::Literal(ExprLiteral::Identifier(name)) => {
                    let (vo, env1) = eval_spec(*v, env, arith, show);
                    if vo is Ok && env1.contains_key(name@) {
                        assert(env1.insert(name@, vo->Ok_0).dom() =~= env1.dom());
                    }
                },
                _ => {},
            }
        },
    }
}

/// Assignment needs an earlier declaration. Once the assigned value `v` is
/// computed: if the table lacks the name, the assignment fails with the
/// undeclared-identifier error naming `v` and declares nothing; if it has
/// the name, the name is bound to `v` and `v` is the result.
pub proof fn lemma_assignment_needs_declaration<A: Fn(FloatOp) -> u32, S: Fn(u32) -> String>(
    name: String,
    value: Expr,
    env: Map<Seq<char>, Val>,
    arith: &A,
    show: &S,
)
    requires
        eval_spec(value, env, arith, show).0 is Ok,
    ensures
        ({
            let e = Expr::Assignment(
                Box::new(Expr::Literal(ExprLiteral::Identifier(name))),
                Box::new(value),
            );
            let v = eval_spec(value, env, arith, show).0->Ok_0;
            let (o, after) = eval_spec(e, env, arith, show);
            &&& !env.contains_key(name@) ==> o == Err::<Val, Seq<char>>(
                undeclared_assignment(value_text(v, show)),
            ) && after.dom() == env.dom()
            &&& env.contains_key(name@) ==> o == Ok::<Val, Seq<char>>(v) && after.contains_key(
                name@,
            ) && after[name@] == v
        }),
{
    lemma_eval_keeps_names(value, env, arith, show);
    let env1 = eval_spec(value, env, arith, show).1;
    assert(env1.contains_key(name@) == env.contains_key(name@));
}

} // verus!
