//! Runtime values.
//!
//! A number is held as the bit pattern of an IEEE-754 single-precision float.
//! Sign, zero test, negation and the comparisons are exact statements about
//! that pattern and are computed here. Reading number text, the four
//! arithmetic operations and decimal rendering are handed to the caller as
//! closures (see [`FloatOp`]); their results are named by `float_result` and
//! `number_text` below.
use vstd::prelude::*;

verus! {

/// A dynamically typed runtime value.
#[derive(Debug, Clone)]
pub enum Value {
    String(String),
    /// Bit pattern of a single-precision float.
    Number(u32),
    Nil,
    Bool(bool),
}

/// The mathematical view of a [`Value`].
pub enum Val {
    Str(Seq<char>),
    Num(u32),
    Nil,
    Bool(bool),
}

impl View for Value {
    type V = Val;

    open spec fn view(&self) -> Val {
        match self {
            Value::String(s) => Val::Str(s@),
            Value::Number(n) => Val::Num(*n),
            Value::Nil => Val::Nil,
            Value::Bool(b) => Val::Bool(*b),
        }
    }
}

/// A floating-point computation the evaluator cannot do on bit patterns alone.
#[derive(Debug)]
pub enum FloatOp {
    /// Read decimal number text.
    Parse(String),
    Add(u32, u32),
    Subtract(u32, u32),
    Multiply(u32, u32),
    Divide(u32, u32),
}

/// `arith` answers every [`FloatOp`], always with the same bits for the same operation.
pub open spec fn computes<A: Fn(FloatOp) -> u32>(arith: &A) -> bool {
    &&& forall|op: FloatOp| #[trigger] arith.requires((op,))
    &&& forall|op: FloatOp, x: u32, y: u32|
        #[trigger] arith.ensures((op,), x) && #[trigger] arith.ensures((op,), y) ==> x == y
}

/// The bits that `arith` answers for `op`.
pub open spec fn float_result<A: Fn(FloatOp) -> u32>(arith: &A, op: FloatOp) -> u32 {
    choose|x: u32| arith.ensures((op,), x)
}

/// `show` renders every number, always to the same text for the same bits.
pub open spec fn renders<S: Fn(u32) -> String>(show: &S) -> bool {
    &&& forall|n: u32| #[trigger] show.requires((n,))
    &&& forall|n: u32, x: String, y: String|
        #[trigger] show.ensures((n,), x) && #[trigger] show.ensures((n,), y) ==> x@ == y@
}

/// The text that `show` renders for the number with bits `n`.
pub open spec fn number_text<S: Fn(u32) -> String>(show: &S, n: u32) -> Seq<char> {
    (choose|x: String| show.ensures((n,), x))@
}

/// Calls `arith` on `op`; the answer is `float_result(arith, op)`.
pub fn compute<A: Fn(FloatOp) -> u32>(arith: &A, op: FloatOp) -> (r: u32)
    requires
        computes(arith),
    ensures
        r == float_result(arith, op),
{
    let ghost g = op;
    let r = arith(op);
    proof {
        assert(arith.ensures((g,), r));
        let c = choose|x: u32| arith.ensures((g,), x);
        assert(arith.ensures((g,), c));
    }
    r
}

/// Renders `n` with `show`; the text is `number_text(show, n)`.
pub fn show_number<S: Fn(u32) -> String>(show: &S, n: u32) -> (r: String)
    requires
        renders(show),
    ensures
        r@ == number_text(show, n),
{
    let r = show(n);
    proof {
        assert(show.ensures((n,), r));
        let c = choose|x: String| show.ensures((n,), x);
        assert(show.ensures((n,), c));
    }
    r
}

/// The magnitude bits (all but the sign).
pub open spec fn magnitude(n: u32) -> int {
    (n & 0x7fff_ffffu32) as int
}

/// Not a number: all exponent bits set and a non-zero fraction.
pub open spec fn is_nan(n: u32) -> bool {
    magnitude(n) > 0x7f80_0000
}

/// Position on the number line of a pattern that is not NaN: patterns order
/// by magnitude, negatives in reverse, and both zeros meet at 0.
pub open spec fn ordinal(n: u32) -> int {
    if n >= 0x8000_0000u32 {
        -magnitude(n)
    } else {
        magnitude(n)
    }
}

/// Float `==`: false when either side is NaN; `+0 == -0`.
pub open spec fn num_eq(a: u32, b: u32) -> bool {
    !is_nan(a) && !is_nan(b) && ordinal(a) == ordinal(b)
}

/// Float `<`: false when either side is NaN.
pub open spec fn num_lt(a: u32, b: u32) -> bool {
    !is_nan(a) && !is_nan(b) && ordinal(a) < ordinal(b)
}

/// Float `<=`: false when either side is NaN.
pub open spec fn num_le(a: u32, b: u32) -> bool {
    !is_nan(a) && !is_nan(b) && ordinal(a) <= ordinal(b)
}

/// Float `== 0.0`, true of both zeros.
pub open spec fn num_is_zero(n: u32) -> bool {
    magnitude(n) == 0
}

/// Float negation: the sign bit flipped.
pub open spec fn negated(n: u32) -> u32 {
    n ^ 0x8000_0000u32
}

/// Truthiness: `nil` and `false` are false, so are the zero numbers and the
/// empty string; everything else is true.
pub open spec fn truthy(v: Val) -> bool {
    match v {
        Val::Nil => false,
        Val::Bool(b) => b,
        Val::Num(n) => !num_is_zero(n),
        Val::Str(s) => s.len() > 0,
    }
}

/// Printed form of a value; numbers as `show` renders them.
pub open spec fn value_text<S: Fn(u32) -> String>(v: Val, show: &S) -> Seq<char> {
    match v {
        Val::Str(s) => s,
        Val::Num(n) => number_text(show, n),
        Val::Nil => "nil"@,
        Val::Bool(b) => if b { "true"@ } else { "false"@ },
    }
}

fn magnitude_of(n: u32) -> (r: u32)
    ensures
        r as int == magnitude(n),
{
    n & 0x7fff_ffffu32
}

fn ordinal_of(n: u32) -> (r: i64)
    ensures
        r as int == ordinal(n),
{
    let m = magnitude_of(n) as i64;
    if n >= 0x8000_0000u32 {
        -m
    } else {
        m
    }
}

fn nan(n: u32) -> (r: bool)
    ensures
        r == is_nan(n),
{
    magnitude_of(n) > 0x7f80_0000u32
}

/// Float `==` on bit patterns.
pub fn number_eq(a: u32, b: u32) -> (r: bool)
    ensures
        r == num_eq(a, b),
{
    !nan(a) && !nan(b) && ordinal_of(a) == ordinal_of(b)
}

/// Float `<` on bit patterns.
pub fn number_lt(a: u32, b: u32) -> (r: bool)
    ensures
        r == num_lt(a, b),
{
    !nan(a) && !nan(b) && ordinal_of(a) < ordinal_of(b)
}

/// Float `<=` on bit patterns.
pub fn number_le(a: u32, b: u32) -> (r: bool)
    ensures
        r == num_le(a, b),
{
    !nan(a) && !nan(b) && ordinal_of(a) <= ordinal_of(b)
}

/// Float negation on bit patterns.
pub fn number_neg(n: u32) -> (r: u32)
    ensures
        r == negated(n),
{
    n ^ 0x8000_0000u32
}

impl Value {
    /// A copy of this value.
    pub fn duplicate(&self) -> (r: Value)
        ensures
            r == *self,
    {
        match self {
            Value::String(s) => Value::String(s.clone()),
            Value::Number(n) => Value::Number(*n),
            Value::Nil => Value::Nil,
            Value::Bool(b) => Value::Bool(*b),
        }
    }

    /// Truthiness of this value.
    pub fn is_truthy(&self) -> (r: bool)
        ensures
            r == truthy(self@),
    {
        match self {
            Value::Nil => false,
            Value::Bool(b) => *b,
            Value::Number(n) => magnitude_of(*n) != 0,
            Value::String(s) => !s.as_str().is_empty(),
        }
    }

    /// The printed form: strings verbatim, `nil`, `true` / `false`, and
    /// numbers as `show` renders them.
    pub fn render<S: Fn(u32) -> String>(&self, show: &S) -> (r: String)
        requires
            renders(show),
        ensures
            r@ == value_text(self@, show),
    {
        match self {
            Value::String(s) => s.clone(),
            Value::Number(n) => show_number(show, *n),
            Value::Nil => String::from_str("nil"),
            Value::Bool(b) => if *b {
                String::from_str("true")
            } else {
                String::from_str("false")
            },
        }
    }
}

} // verus!
