//! The statement interpreter: runs a program in order and stops at the first
//! runtime error.
use vstd::prelude::*;

use crate::eval::{eval_spec, is_runtime_error, Evaluator, RuntimeError};
use crate::expr::{well_formed, Expr, ExprLiteral};
use crate::statement::Statment;
use crate::value::{computes, float_result, number_text, renders, value_text, FloatOp, Val};

verus! {

/// The state of a run: variables, line counter, lines printed so far, and
/// the runtime error that stopped it (message and line), if one did.
pub struct RunView {
    pub env: Map<Seq<char>, Val>,
    pub line: u32,
    pub printed: Seq<Seq<char>>,
    pub error: Option<(Seq<char>, u32)>,
}

/// The line counter after one more statement; it stops at its maximum.
pub open spec fn next_line(line: u32) -> u32 {
    if line < u32::MAX {
        (line + 1) as u32
    } else {
        line
    }
}

/// The message when a declaration's name is not an identifier.
pub open spec fn bad_variable_name() -> Seq<char> {
    "failed to interpret variable name"@
}

/// Every expression in the statement is well formed.
pub open spec fn stmt_wf(s: Statment) -> bool
    decreases s,
{
    match s {
        Statment::ExprStmt(e) => well_formed(e),
        Statment::PrintStmt(e) => well_formed(e),
        Statment::VarDec(_, e) => well_formed(e),
        Statment::BlockStatment(b) => stmts_wf((*b)@),
    }
}

/// Every statement of the sequence is well formed.
pub open spec fn stmts_wf(ss: Seq<Statment>) -> bool
    decreases ss,
{
    if ss.len() == 0 {
        true
    } else {
        stmts_wf(ss.subrange(0, ss.len() - 1)) && stmt_wf(ss[ss.len() - 1])
    }
}

/// Running one statement from state `st` (which has no error).
pub open spec fn run_stmt<A: Fn(FloatOp) -> u32, S: Fn(u32) -> String>(
    s: Statment,
    st: RunView,
    arith: &A,
    show: &S,
) -> RunView
    decreases s,
{
    match s {
        Statment::PrintStmt(e) => {
            let (o, env) = eval_spec(e, st.env, arith, show);
            match o {
                Ok(v) => RunView {
                    env,
                    line: next_line(st.line),
                    printed: st.printed.push(value_text(v, show)),
                    error: None,
                },
                Err(m) => RunView { env, error: Some((m, st.line)), ..st },
            }
        },
        Statment::ExprStmt(e) => {
            let (o, env) = eval_spec(e, st.env, arith, show);
            match o {
                Ok(_) => RunView { env, line: next_line(st.line), ..st },
                Err(m) => RunView { env, error: Some((m, st.line)), ..st },
            }
        },
        Statment::VarDec(name, e) => match name {
            Expr::Literal(ExprLiteral::Identifier(n)) => {
                let (o, env) = eval_spec(e, st.env, arith, show);
                match o {
                    Ok(v) => RunView { env: env.insert(n@, v), line: next_line(st.line), ..st },
                    Err(m) => RunView { env, error: Some((m, st.line)), ..st },
                }
            },
            _ => RunView { error: Some((bad_variable_name(), st.line)), ..st },
        },
        Statment::BlockStatment(b) => {
            let fresh = RunView {
                env: Map::empty(),
                line: 0,
                printed: st.printed,
                error: None,
            };
            let inner = run_stmts((*b)@, fresh, arith, show);
            match inner.error {
                None => RunView { line: next_line(st.line), printed: inner.printed, ..st },
                Some(err) => RunView { printed: inner.printed, error: Some(err), ..st },
            }
        },
    }
}

/// Running statements in order from `st`, stopping at the first error.
pub open spec fn run_stmts<A: Fn(FloatOp) -> u32, S: Fn(u32) -> String>(
    ss: Seq<Statment>,
    st: RunView,
    arith: &A,
    show: &S,
) -> RunView
    decreases ss,
{
    if ss.len() == 0 {
        st
    } else {
        let before = run_stmts(ss.subrange(0, ss.len() - 1), st, arith, show);
        if before.error is Some {
            before
        } else {
            run_stmt(ss[ss.len() - 1], before, arith, show)
        }
    }
}

/// Text of a sequence of printed lines.
pub open spec fn lines(v: Seq<String>) -> Seq<Seq<char>> {
    v.map_values(|s: String| s@)
}

impl Statment {
    /// Whether every expression in this statement is well formed.
    pub fn is_well_formed(&self) -> (r: bool)
        ensures
            r == stmt_wf(*self),
        decreases *self,
    {
        match self {
            Statment::ExprStmt(e) => e.is_well_formed(),
            Statment::PrintStmt(e) => e.is_well_formed(),
            Statment::VarDec(_, e) => e.is_well_formed(),
            Statment::BlockStatment(b) => all_well_formed(&**b),
        }
    }
}

/// Whether every statement of `stmts` is well formed.
pub fn all_well_formed(stmts: &Vec<Statment>) -> (r: bool)
    ensures
        r == stmts_wf(stmts@),
    decreases stmts@,
{
    let mut i: usize = 0;
    while i < stmts.len()
        invariant
            0 <= i <= stmts@.len(),
            stmts_wf(stmts@.subrange(0, i as int)),
        decreases stmts@.len() - i,
    {
        let ghost pre = stmts@.subrange(0, i as int + 1);
        proof {
            assert(pre.subrange(0, i as int) =~= stmts@.subrange(0, i as int));
            assert(pre[i as int] == stmts@[i as int]);
        }
        if !stmts[i].is_well_formed() {
            proof {
                assert(!stmts_wf(pre));
                if stmts_wf(stmts@) {
                    lemma_prefix_wf(stmts@, i as int + 1);
                }
            }
            return false;
        }
        i = i + 1;
    }
    proof {
        assert(stmts@.subrange(0, stmts@.len() as int) =~= stmts@);
    }
    true
}

/// Runs programs against one variable table.
pub struct Interpreter {
    pub evaluator: Evaluator,
}

impl Interpreter {
    pub open spec fn wf(&self) -> bool {
        self.evaluator.wf()
    }

    /// The run state of this interpreter with `printed` as the output so far.
    pub open spec fn at(&self, printed: Seq<Seq<char>>) -> RunView {
        RunView {
            env: self.evaluator.symbols@,
            line: self.evaluator.line,
            printed,
            error: None,
        }
    }

    /// Line 0 and no variables.
    pub fn new() -> (i: Self)
        ensures
            i.wf(),
            i.evaluator.line == 0,
            i.evaluator.symbols@ == Map::<Seq<char>, Val>::empty(),
    {
        Interpreter { evaluator: Evaluator::new() }
    }

    /// Runs `statements` in order. Each `print` appends the printed form of
    /// its value to `out`. The first runtime error stops the run and is
    /// returned; what was printed and assigned before it stays.
    pub fn interpret<A: Fn(FloatOp) -> u32, S: Fn(u32) -> String>(
        &mut self,
        statements: Vec<Statment>,
        out: &mut Vec<String>,
        arith: &A,
        show: &S,
    ) -> (r: Result<(), RuntimeError>)
        requires
            old(self).wf(),
            stmts_wf(statements@),
            computes(arith),
            renders(show),
        ensures
            final(self).wf(),
            ({
                let end = run_stmts(statements@, old(self).at(lines(old(out)@)), arith, show);
                &&& lines(final(out)@) == end.printed
                &&& final(self).evaluator.symbols@ == end.env
                &&& final(self).evaluator.line == end.line
                &&& match end.error {
                    None => r is Ok,
                    Some((m, l)) => r is Err && is_runtime_error(r->Err_0, m, l),
                }
            }),
    {
        self.run(&statements, out, arith, show)
    }

    fn run<A: Fn(FloatOp) -> u32, S: Fn(u32) -> String>(
        &mut self,
        statements: &Vec<Statment>,
        out: &mut Vec<String>,
        arith: &A,
        show: &S,
    ) -> (r: Result<(), RuntimeError>)
        requires
            old(self).wf(),
            stmts_wf(statements@),
            computes(arith),
            renders(show),
        ensures
            final(self).wf(),
            ({
                let end = run_stmts(statements@, old(self).at(lines(old(out)@)), arith, show);
                &&& lines(final(out)@) == end.printed
                &&& final(self).evaluator.symbols@ == end.env
                &&& final(self).evaluator.line == end.line
                &&& match end.error {
                    None => r is Ok,
                    Some((m, l)) => r is Err && is_runtime_error(r->Err_0, m, l),
                }
            }),
        decreases statements@,
    {
        let ghost start = old(self).at(lines(old(out)@));
        let mut i: usize = 0;
        while i < statements.len()
            invariant
                self.wf(),
                start == old(self).at(lines(old(out)@)),
                0 <= i <= statements@.len(),
                stmts_wf(statements@),
                computes(arith),
                renders(show),
                run_stmts(statements@.subrange(0, i as int), start, arith, show) == self.at(
                    lines(out@),
                ),
            decreases statements@.len() - i,
        {
            let ghost before = self.at(lines(out@));
            let ghost pre = statements@.subrange(0, i as int + 1);
            proof {
                lemma_prefix_wf(statements@, i as int + 1);
                assert(pre.subrange(0, i as int) =~= statements@.subrange(0, i as int));
                assert(pre[i as int] == statements@[i as int]);
                assert(run_stmts(pre, start, arith, show) == run_stmt(
                    statements@[i as int],
                    before,
                    arith,
                    show,
                ));
            }
            match self.execute(&statements[i], out, arith, show) {
                Ok(()) => {},
                Err(e) => {
                    proof {
                        lemma_run_stops(statements@, i as int + 1, start, arith, show);
                    }
                    return Err(e);
                },
            }
            i = i + 1;
        }
        proof {
            assert(statements@.subrange(0, statements@.len() as int) =~= statements@);
        }
        Ok(())
    }

    /// Runs one statement.
    fn execute<A: Fn(FloatOp) -> u32, S: Fn(u32) -> String>(
        &mut self,
        statement: &Statment,
        out: &mut Vec<String>,
        arith: &A,
        show: &S,
    ) -> (r: Result<(), RuntimeError>)
        requires
            old(self).wf(),
            stmt_wf(*statement),
            computes(arith),
            renders(show),
        ensures
            final(self).wf(),
            ({
                let end = run_stmt(*statement, old(self).at(lines(old(out)@)), arith, show);
                &&& lines(final(out)@) == end.printed
                &&& final(self).evaluator.symbols@ == end.env
                &&& final(self).evaluator.line == end.line
                &&& match end.error {
                    None => r is Ok,
                    Some((m, l)) => r is Err && is_runtime_error(r->Err_0, m, l),
                }
            }),
        decreases *statement,
    {
        let ghost old_out = out@;
        match statement {
            Statment::PrintStmt(expr) => {
                let v = match self.evaluator.evaluate(expr, arith, show) {
                    Ok(v) => v,
                    Err(e) => return Err(e),
                };
                out.push(v.render(show));
                proof {
                    assert(lines(out@) =~= lines(old_out).push(value_text(v@, show)));
                }
            },
            Statment::VarDec(name, value) => {
                let variable_name = match name {
                    Expr::Literal(ExprLiteral::Identifier(n)) => n.clone(),
                    _ => {
                        return Err(
                            RuntimeError::new(
                                String::from_str("failed to interpret variable name"),
                                self.evaluator.line,
                            ),
                        );
                    },
                };
                let val = match self.evaluator.evaluate(value, arith, show) {
                    Ok(v) => v,
                    Err(e) => return Err(e),
                };
                self.evaluator.symbols.define(variable_name, val);
            },
            Statment::BlockStatment(inner) => {
                let mut nested = Interpreter::new();
                match nested.run(&**inner, out, arith, show) {
                    Ok(()) => {},
                    Err(e) => return Err(e),
                }
            },
            Statment::ExprStmt(expr) => {
                match self.evaluator.evaluate(expr, arith, show) {
                    Ok(_) => {},
                    Err(e) => return Err(e),
                }
            },
        }
        if self.evaluator.line < u32::MAX {
            self.evaluator.line = self.evaluator.line + 1;
        }
        Ok(())
    }
}

/// Prefixes of a well-formed sequence are well formed, and so are their
/// last statements.
proof fn lemma_prefix_wf(ss: Seq<Statment>, n: int)
    requires
        stmts_wf(ss),
        0 < n <= ss.len(),
    ensures
        stmts_wf(ss.subrange(0, n)),
        stmt_wf(ss[n - 1]),
    decreases ss.len() - n,
{
    if n < ss.len() {
        lemma_prefix_wf(ss, n + 1);
        assert(ss.subrange(0, n + 1).subrange(0, n) =~= ss.subrange(0, n));
    } else {
        assert(ss.subrange(0, n) =~= ss);
    }
    let pre = ss.subrange(0, n);
    assert(pre[n - 1] == ss[n - 1]);
    assert(stmts_wf(pre));
    assert(stmt_wf(pre[pre.len() - 1]));
}

/// Once a prefix has failed, running more statements changes nothing.
proof fn lemma_run_stops<A: Fn(FloatOp) -> u32, S: Fn(u32) -> String>(
    ss: Seq<Statment>,
    n: int,
    st: RunView,
    arith: &A,
    show: &S,
)
    requires
        0 < n <= ss.len(),
        run_stmts(ss.subrange(0, n), st, arith, show).error is Some,
    ensures
        run_stmts(ss, st, arith, show) == run_stmts(ss.subrange(0, n), st, arith, show),
    decreases ss.len() - n,
{
    if n < ss.len() {
        assert(ss.subrange(0, n + 1).subrange(0, n) =~= ss.subrange(0, n));
        lemma_run_stops(ss, n + 1, st, arith, show);
    } else {
        assert(ss.subrange(0, n) =~= ss);
    }
}

/// `print` of a number literal prints the text that `show` renders for the
/// number that `arith` reads from the literal's text, and advances the line
/// counter; variables stay as they were.
pub proof fn lemma_print_number_literal<A: Fn(FloatOp) -> u32, S: Fn(u32) -> String>(
    text: String,
    st: RunView,
    arith: &A,
    show: &S,
)
    requires
        st.error is None,
    ensures
        run_stmts(
            seq![Statment::PrintStmt(Expr::Literal(ExprLiteral::Number(text)))],
            st,
            arith,
            show,
        ) == (RunView {
            line: next_line(st.line),
            printed: st.printed.push(number_text(show, float_result(arith, FloatOp::Parse(text)))),
            ..st
        }),
{
    let ss = seq![Statment::PrintStmt(Expr::Literal(ExprLiteral::Number(text)))];
    let e = Expr::Literal(ExprLiteral::Number(text));
    assert(ss.subrange(0, 0) =~= Seq::<Statment>::empty());
    assert(run_stmts(ss.subrange(0, 0), st, arith, show) == st);
    assert(ss[0] == Statment::PrintStmt(e));
    let n = float_result(arith, FloatOp::Parse(text));
    assert(eval_spec(e, st.env, arith, show) == (Ok::<Val, Seq<char>>(Val::Num(n)), st.env));
    assert(value_text(Val::Num(n), show) == number_text(show, n));
    assert(run_stmts(ss, st, arith, show) == run_stmt(ss[0], st, arith, show));
    assert(st.error == None::<(Seq<char>, u32)>);
}

} // verus!
