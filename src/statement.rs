//! Statements of a program.
use vstd::prelude::*;

use crate::expr::Expr;

verus! {

/// One statement; a program is a sequence of them, run in order.
#[derive(Debug)]
pub enum Statment {
    ExprStmt(Expr),
    PrintStmt(Expr),
    BlockStatment(Box<Vec<Statment>>),
    /// The name (an identifier leaf) and the initializer.
    VarDec(Expr, Expr),
}

} // verus!
