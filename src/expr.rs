//! Expression trees and the parser's error type.
use vstd::prelude::*;

use crate::token::{Token, TokenType};

verus! {

/// A leaf of an expression tree. Numbers keep their source text; it is read
/// as a number only when the leaf is evaluated.
#[derive(Debug, Clone)]
pub enum ExprLiteral {
    Number(String),
    String(String),
    Bool(bool),
    Nil,
    Identifier(String),
}

/// An expression; each composite node owns its children.
#[derive(Debug)]
pub enum Expr {
    Literal(ExprLiteral),
    Grouping(Box<Expr>),
    Unary(Token, Box<Expr>),
    Binary(Token, Box<Expr>, Box<Expr>),
    /// Target and value. The target is meant to be an identifier leaf; that
    /// is checked when the node is evaluated.
    Assignment(Box<Expr>, Box<Expr>),
}

/// A parse failure: a message and the failure code.
#[derive(Debug)]
pub struct ExprError {
    pub msg: String,
    pub code: i32,
}

/// Diagnostic text of a leaf.
pub open spec fn literal_text(l: ExprLiteral) -> Seq<char> {
    match l {
        ExprLiteral::Number(n) => n@,
        ExprLiteral::String(s) => s@,
        ExprLiteral::Bool(b) => if b { "true"@ } else { "false"@ },
        ExprLiteral::Nil => "nil"@,
        ExprLiteral::Identifier(name) => name@,
    }
}

/// Diagnostic, prefix-notation text of an expression, e.g. `(* (group (+ 1 2)) 3)`.
/// It is meant for reading only and is not parsed back.
pub open spec fn debug_text(e: Expr) -> Seq<char>
    decreases e,
{
    match e {
        Expr::Literal(l) => literal_text(l),
        Expr::Grouping(inner) => "(group "@ + debug_text(*inner) + ")"@,
        Expr::Unary(op, inner) => "("@ + op.lexeme@ + " "@ + debug_text(*inner) + ")"@,
        Expr::Binary(op, l, r) => "("@ + op.lexeme@ + " "@ + debug_text(*l) + " "@ + debug_text(*r)
            + ")"@,
        Expr::Assignment(t, v) => "(= "@ + debug_text(*t) + " "@ + debug_text(*v) + ")"@,
    }
}

/// A unary operator kind: `-` or `!`.
pub open spec fn is_unary_op(k: TokenType) -> bool {
    k == TokenType::Minus || k == TokenType::Bang
}

/// A binary operator kind: `*`, `/`, `+`, `-`, `<`, `>`, `<=`, `>=`, `==`, `!=`.
pub open spec fn is_binary_op(k: TokenType) -> bool {
    k == TokenType::Star || k == TokenType::Slash || k == TokenType::Plus || k == TokenType::Minus
        || k == TokenType::LessThan || k == TokenType::GreaterThan || k == TokenType::LessThanEquals
        || k == TokenType::GreaterThanEquals || k == TokenType::EqualEqual || k
        == TokenType::BangEqual
}

/// Every operator node of `e` carries an operator of its arity.
pub open spec fn well_formed(e: Expr) -> bool
    decreases e,
{
    match e {
        Expr::Literal(_) => true,
        Expr::Grouping(inner) => well_formed(*inner),
        Expr::Unary(op, inner) => is_unary_op(op.kind) && well_formed(*inner),
        Expr::Binary(op, l, r) => is_binary_op(op.kind) && well_formed(*l) && well_formed(*r),
        Expr::Assignment(t, v) => well_formed(*t) && well_formed(*v),
    }
}

/// Number of nodes of `e`.
pub open spec fn size(e: Expr) -> nat
    decreases e,
{
    match e {
        Expr::Literal(_) => 1,
        Expr::Grouping(inner) => 1 + size(*inner),
        Expr::Unary(_, inner) => 1 + size(*inner),
        Expr::Binary(_, l, r) => 1 + size(*l) + size(*r),
        Expr::Assignment(t, v) => 1 + size(*t) + size(*v),
    }
}

impl ExprLiteral {
    /// The diagnostic text of this leaf.
    pub fn render(&self) -> (r: String)
        ensures
            r@ == literal_text(*self),
    {
        match self {
            ExprLiteral::Number(n) => n.clone(),
            ExprLiteral::String(s) => s.clone(),
            ExprLiteral::Bool(b) => if *b {
                String::from_str("true")
            } else {
                String::from_str("false")
            },
            ExprLiteral::Nil => String::from_str("nil"),
            ExprLiteral::Identifier(name) => name.clone(),
        }
    }
}

impl Expr {
    /// Appends the diagnostic text of this expression to `out`.
    pub fn render_into(&self, out: &mut String)
        ensures
            final(out)@ == old(out)@ + debug_text(*self),
        decreases self,
    {
        match self {
            Expr::Literal(l) => {
                let t = l.render();
                out.append(t.as_str());
            },
            Expr::Grouping(inner) => {
                out.append("(group ");
                inner.render_into(out);
                out.append(")");
            },
            Expr::Unary(op, inner) => {
                out.append("(");
                out.append(op.lexeme.as_str());
                out.append(" ");
                inner.render_into(out);
                out.append(")");
            },
            Expr::Binary(op, l, r) => {
                out.append("(");
                out.append(op.lexeme.as_str());
                out.append(" ");
                l.render_into(out);
                out.append(" ");
                r.render_into(out);
                out.append(")");
            },
            Expr::Assignment(t, v) => {
                out.append("(= ");
                t.render_into(out);
                out.append(" ");
                v.render_into(out);
                out.append(")");
            },
        }
    }

    /// Whether every operator node carries an operator of its arity.
    pub fn is_well_formed(&self) -> (r: bool)
        ensures
            r == well_formed(*self),
        decreases self,
    {
        match self {
            Expr::Literal(_) => true,
            Expr::Grouping(inner) => inner.is_well_formed(),
            Expr::Unary(op, inner) => (op.kind == TokenType::Minus || op.kind == TokenType::Bang)
                && inner.is_well_formed(),
            Expr::Binary(op, l, r) => {
                let k = op.kind;
                (k == TokenType::Star || k == TokenType::Slash || k == TokenType::Plus || k
                    == TokenType::Minus || k == TokenType::LessThan || k == TokenType::GreaterThan
                    || k == TokenType::LessThanEquals || k == TokenType::GreaterThanEquals || k
                    == TokenType::EqualEqual || k == TokenType::BangEqual) && l.is_well_formed()
                    && r.is_well_formed()
            },
            Expr::Assignment(t, v) => t.is_well_formed() && v.is_well_formed(),
        }
    }

    /// The diagnostic text of this expression.
    pub fn render(&self) -> (r: String)
        ensures
            r@ == debug_text(*self),
    {
        let mut out = String::new();
        self.render_into(&mut out);
        proof {
            assert(out@ =~= debug_text(*self));
        }
        out
    }
}

impl ExprError {
    /// A parse failure whose message is `msg` behind the prefix `Error: `.
    pub fn new(msg: String, code: i32) -> (e: Self)
        ensures
            e.msg@ == "Error: "@ + msg@,
            e.code == code,
    {
        let mut m = String::from_str("Error: ");
        m.append(msg.as_str());
        ExprError { msg: m, code }
    }

    /// A failure with an empty message.
    #[allow(non_snake_case)]
    pub fn MissingToken(code: i32) -> (e: Self)
        ensures
            e.msg@.len() == 0,
            e.code == code,
    {
        ExprError { msg: String::new(), code }
    }
}

} // verus!
