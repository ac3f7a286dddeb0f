//! Recursive-descent parser. Precedence, lowest first: assignment, equality,
//! comparison, term, factor, unary, primary. The binary levels fold to the
//! left; unary prefixes and assignment nest to the right.
use vstd::prelude::*;

use crate::expr::{is_binary_op, is_unary_op, well_formed, Expr, ExprError, ExprLiteral};
use crate::interpret::{stmt_wf, stmts_wf};
use crate::statement::Statment;
use crate::token::{copy_opt_string, Token, TokenType};

verus! {

/// Failure code of every parse error.
pub const SYNTAX_ERROR: i32 = 65;

/// Binary precedence levels, loosest first.
pub const EQUALITY: u8 = 4;
pub const COMPARISON: u8 = 3;
pub const TERM: u8 = 2;
pub const FACTOR: u8 = 1;

/// A parse of one rule from a position: the node and the position after it,
/// or the message of the first error (without its `Error: ` prefix).
pub type ExprParse = Result<(Expr, int), Seq<char>>;

pub type StmtParse = Result<(Statment, int), Seq<char>>;

/// A stream the parser accepts: not empty, ending with the end marker.
pub open spec fn stream_ok(ts: Seq<Token>) -> bool {
    ts.len() > 0 && ts.last().kind == TokenType::Eof
}

/// The operator kinds of binary level `level`.
pub open spec fn level_ops(level: int, k: TokenType) -> bool {
    if level == EQUALITY as int {
        k == TokenType::BangEqual || k == TokenType::EqualEqual
    } else if level == COMPARISON as int {
        k == TokenType::GreaterThan || k == TokenType::GreaterThanEquals || k
            == TokenType::LessThan || k == TokenType::LessThanEquals
    } else if level == TERM as int {
        k == TokenType::Minus || k == TokenType::Plus
    } else if level == FACTOR as int {
        k == TokenType::Slash || k == TokenType::Star
    } else {
        false
    }
}

/// Whether position `p` holds a token of kind `k`.
pub open spec fn kind_at(ts: Seq<Token>, p: int, k: TokenType) -> bool {
    0 <= p < ts.len() && ts[p].kind == k
}

/// `primary`: one leaf token, or a parenthesised equality.
pub open spec fn primary_spec(ts: Seq<Token>, p: int) -> ExprParse
    decreases ts.len() - p, 0int,
{
    if !(0 <= p < ts.len()) {
        Err("Unexpected end of input"@)
    } else {
        let t = ts[p];
        match t.kind {
            TokenType::Identifier => Ok(
                (Expr::Literal(ExprLiteral::Identifier(t.lexeme)), p + 1),
            ),
            TokenType::True => Ok((Expr::Literal(ExprLiteral::Bool(true)), p + 1)),
            TokenType::False => Ok((Expr::Literal(ExprLiteral::Bool(false)), p + 1)),
            TokenType::Nil => Ok((Expr::Literal(ExprLiteral::Nil), p + 1)),
            TokenType::String => match t.literal {
                Some(v) => Ok((Expr::Literal(ExprLiteral::String(v)), p + 1)),
                None => Err("Expected string value"@),
            },
            TokenType::Number => match t.literal {
                Some(v) => Ok((Expr::Literal(ExprLiteral::Number(v)), p + 1)),
                None => Err("Expected number value"@),
            },
            TokenType::LeftParen => match binary_spec(ts, p + 1, EQUALITY as int) {
                Ok((inner, q)) => if kind_at(ts, q, TokenType::RightParen) {
                    Ok((Expr::Grouping(Box::new(inner)), q + 1))
                } else {
                    Err("Expected ')'"@)
                },
                Err(m) => Err(m),
            },
            _ => Err("Unexpected token"@),
        }
    }
}

/// `unary`: any number of `!` / `-` prefixes, then a primary.
pub open spec fn unary_spec(ts: Seq<Token>, p: int) -> ExprParse
    decreases ts.len() - p, 1int,
{
    if kind_at(ts, p, TokenType::Bang) || kind_at(ts, p, TokenType::Minus) {
        match unary_spec(ts, p + 1) {
            Ok((inner, q)) => Ok((Expr::Unary(ts[p], Box::new(inner)), q)),
            Err(m) => Err(m),
        }
    } else {
        primary_spec(ts, p)
    }
}

/// An operand of binary level `level`: the next tighter level.
pub open spec fn operand_spec(ts: Seq<Token>, p: int, level: int) -> ExprParse
    decreases ts.len() - p, 2 * level + 1,
{
    if level < 1 {
        Err("Unexpected token"@)
    } else if level == 1 {
        unary_spec(ts, p)
    } else {
        binary_spec(ts, p, level - 1)
    }
}

/// Binary level `level` (1 to 4): operands separated by the level's
/// operators, folded to the left.
pub open spec fn binary_spec(ts: Seq<Token>, p: int, level: int) -> ExprParse
    decreases ts.len() - p, 2 * level + 2,
{
    if level < 1 {
        Err("Unexpected token"@)
    } else {
        match operand_spec(ts, p, level) {
            Ok((left, q)) => if p < q < ts.len() {
                binary_rest_spec(ts, q, level, left)
            } else {
                Err("Unexpected token"@)
            },
            Err(m) => Err(m),
        }
    }
}

/// The rest of binary level `level` after the operands folded into `left`.
pub open spec fn binary_rest_spec(ts: Seq<Token>, p: int, level: int, left: Expr) -> ExprParse
    decreases ts.len() - p, 0int,
{
    if !(0 <= p < ts.len()) || level < 1 {
        Err("Unexpected end of input"@)
    } else if level_ops(level, ts[p].kind) {
        match operand_spec(ts, p + 1, level) {
            Ok((right, q)) => if p < q < ts.len() {
                binary_rest_spec(ts, q, level, Expr::Binary(ts[p], Box::new(left), Box::new(right)))
            } else {
                Err("Unexpected token"@)
            },
            Err(m) => Err(m),
        }
    } else {
        Ok((left, p))
    }
}

/// `assignment`: an equality, and if `=` follows, the value assigned to it.
pub open spec fn assignment_spec(ts: Seq<Token>, p: int) -> ExprParse
    decreases ts.len() - p, 11int,
{
    match binary_spec(ts, p, EQUALITY as int) {
        Ok((target, q)) => if kind_at(ts, q, TokenType::Equal) && p < q {
            match assignment_spec(ts, q + 1) {
                Ok((value, r)) => Ok((Expr::Assignment(Box::new(target), Box::new(value)), r)),
                Err(m) => Err(m),
            }
        } else {
            Ok((target, q))
        },
        Err(m) => Err(m),
    }
}

/// An expression, then a mandatory `;`.
pub open spec fn terminated_spec(ts: Seq<Token>, p: int) -> ExprParse {
    match assignment_spec(ts, p) {
        Ok((e, q)) => if kind_at(ts, q, TokenType::SemiColon) {
            Ok((e, q + 1))
        } else {
            Err("Semicolon expected"@)
        },
        Err(m) => Err(m),
    }
}

/// A variable declaration after `var`: an identifier, then `;` or `= expression ;`.
pub open spec fn var_decl_spec(ts: Seq<Token>, p: int) -> StmtParse {
    match binary_spec(ts, p, EQUALITY as int) {
        Ok((name, q)) => match name {
            Expr::Literal(ExprLiteral::Identifier(_)) => if kind_at(ts, q, TokenType::SemiColon) {
                Ok((Statment::VarDec(name, Expr::Literal(ExprLiteral::Nil)), q + 1))
            } else if kind_at(ts, q, TokenType::Equal) {
                match assignment_spec(ts, q + 1) {
                    Ok((init, r)) => if kind_at(ts, r, TokenType::SemiColon) {
                        Ok((Statment::VarDec(name, init), r + 1))
                    } else {
                        Err("SemiColon expected"@)
                    },
                    Err(m) => Err(m),
                }
            } else {
                Err("Unexpected token"@)
            },
            _ => Err("expected an identifier"@),
        },
        Err(m) => Err(m),
    }
}

/// One statement: a declaration, a print statement or an expression statement.
pub open spec fn statement_spec(ts: Seq<Token>, p: int) -> StmtParse {
    if kind_at(ts, p, TokenType::Var) {
        var_decl_spec(ts, p + 1)
    } else if kind_at(ts, p, TokenType::Print) {
        match terminated_spec(ts, p + 1) {
            Ok((e, q)) => Ok((Statment::PrintStmt(e), q)),
            Err(m) => Err(m),
        }
    } else {
        match terminated_spec(ts, p) {
            Ok((e, q)) => Ok((Statment::ExprStmt(e), q)),
            Err(m) => Err(m),
        }
    }
}

/// Statements from position `p` up to the end marker, or the first error.
pub open spec fn program_spec(ts: Seq<Token>, p: int) -> Result<Seq<Statment>, Seq<char>>
    decreases ts.len() - p,
{
    if !(0 <= p < ts.len()) {
        Err("Unexpected end of input"@)
    } else if ts[p].kind == TokenType::Eof {
        Ok(Seq::empty())
    } else {
        match statement_spec(ts, p) {
            Ok((s, q)) => if p < q < ts.len() {
                match program_spec(ts, q) {
                    Ok(rest) => Ok(seq![s] + rest),
                    Err(m) => Err(m),
                }
            } else {
                Err("Unexpected token"@)
            },
            Err(m) => Err(m),
        }
    }
}

/// `e` is the parse error whose message (without prefix) is `m`.
pub open spec fn is_syntax_error(e: ExprError, m: Seq<char>) -> bool {
    e.msg@ == "Error: "@ + m && e.code == SYNTAX_ERROR
}

/// An executable parse result `r`, ending at `after`, agrees with the rule's parse `s`.
pub open spec fn agrees<T>(r: Result<T, ExprError>, after: int, s: Result<(T, int), Seq<char>>) -> bool {
    match s {
        Ok((v, q)) => r == Ok::<T, ExprError>(v) && after == q,
        Err(m) => r is Err && is_syntax_error(r->Err_0, m),
    }
}

proof fn lemma_primary_wf(ts: Seq<Token>, p: int)
    ensures
        primary_spec(ts, p) is Ok ==> well_formed(primary_spec(ts, p)->Ok_0.0),
    decreases ts.len() - p, 0int,
{
    if 0 <= p < ts.len() && ts[p].kind == TokenType::LeftParen {
        lemma_binary_wf(ts, p + 1, EQUALITY as int);
    }
}

proof fn lemma_unary_wf(ts: Seq<Token>, p: int)
    ensures
        unary_spec(ts, p) is Ok ==> well_formed(unary_spec(ts, p)->Ok_0.0),
    decreases ts.len() - p, 1int,
{
    if kind_at(ts, p, TokenType::Bang) || kind_at(ts, p, TokenType::Minus) {
        lemma_unary_wf(ts, p + 1);
        assert(is_unary_op(ts[p].kind));
    } else {
        lemma_primary_wf(ts, p);
    }
}

proof fn lemma_operand_wf(ts: Seq<Token>, p: int, level: int)
    ensures
        operand_spec(ts, p, level) is Ok ==> well_formed(operand_spec(ts, p, level)->Ok_0.0),
    decreases ts.len() - p, 2 * level + 1,
{
    if level == 1 {
        lemma_unary_wf(ts, p);
    } else if level > 1 {
        lemma_binary_wf(ts, p, level - 1);
    }
}

proof fn lemma_binary_wf(ts: Seq<Token>, p: int, level: int)
    ensures
        binary_spec(ts, p, level) is Ok ==> well_formed(binary_spec(ts, p, level)->Ok_0.0),
    decreases ts.len() - p, 2 * level + 2,
{
    if level >= 1 {
        lemma_operand_wf(ts, p, level);
        match operand_spec(ts, p, level) {
            Ok((left, q)) => if p < q < ts.len() {
                lemma_binary_rest_wf(ts, q, level, left);
            },
            Err(_) => {},
        }
    }
}

proof fn lemma_binary_rest_wf(ts: Seq<Token>, p: int, level: int, left: Expr)
    requires
        well_formed(left),
    ensures
        binary_rest_spec(ts, p, level, left) is Ok ==> well_formed(
            binary_rest_spec(ts, p, level, left)->Ok_0.0,
        ),
    decreases ts.len() - p, 0int,
{
    if 0 <= p < ts.len() && level >= 1 && level_ops(level, ts[p].kind) {
        assert(is_binary_op(ts[p].kind));
        lemma_operand_wf(ts, p + 1, level);
        match operand_spec(ts, p + 1, level) {
            Ok((right, q)) => if p < q < ts.len() {
                lemma_binary_rest_wf(
                    ts,
                    q,
                    level,
                    Expr::Binary(ts[p], Box::new(left), Box::new(right)),
                );
            },
            Err(_) => {},
        }
    }
}

proof fn lemma_assignment_wf(ts: Seq<Token>, p: int)
    ensures
        assignment_spec(ts, p) is Ok ==> well_formed(assignment_spec(ts, p)->Ok_0.0),
    decreases ts.len() - p, 11int,
{
    lemma_binary_wf(ts, p, EQUALITY as int);
    match binary_spec(ts, p, EQUALITY as int) {
        Ok((_, q)) => if kind_at(ts, q, TokenType::Equal) && p < q {
            lemma_assignment_wf(ts, q + 1);
        },
        Err(_) => {},
    }
}

proof fn lemma_statement_wf(ts: Seq<Token>, p: int)
    ensures
        statement_spec(ts, p) is Ok ==> stmt_wf(statement_spec(ts, p)->Ok_0.0),
{
    lemma_assignment_wf(ts, p);
    lemma_assignment_wf(ts, p + 1);
    lemma_binary_wf(ts, p + 1, EQUALITY as int);
    match binary_spec(ts, p + 1, EQUALITY as int) {
        Ok((_, q)) => lemma_assignment_wf(ts, q + 1),
        Err(_) => {},
    }
}

proof fn lemma_concat_wf(x: Seq<Statment>, y: Seq<Statment>)
    requires
        stmts_wf(x),
        stmts_wf(y),
    ensures
        stmts_wf(x + y),
    decreases y.len(),
{
    if y.len() > 0 {
        let y0 = y.subrange(0, y.len() - 1);
        lemma_concat_wf(x, y0);
        assert((x + y).subrange(0, (x + y).len() - 1) =~= x + y0);
        assert((x + y)[(x + y).len() - 1] == y[y.len() - 1]);
    } else {
        assert(x + y =~= x);
    }
}

/// Every program the parser produces is well formed, so it can be run as it is.
pub proof fn lemma_program_wf(ts: Seq<Token>, p: int)
    ensures
        program_spec(ts, p) is Ok ==> stmts_wf(program_spec(ts, p)->Ok_0),
    decreases ts.len() - p,
{
    if 0 <= p < ts.len() && ts[p].kind != TokenType::Eof {
        lemma_statement_wf(ts, p);
        match statement_spec(ts, p) {
            Ok((s, q)) => if p < q < ts.len() {
                lemma_program_wf(ts, q);
                let one = seq![s];
                assert(one.subrange(0, 0) =~= Seq::<Statment>::empty());
                assert(stmts_wf(one.subrange(0, 0)));
                assert(one[0] == s);
                assert(stmts_wf(one));
                if program_spec(ts, q) is Ok {
                    lemma_concat_wf(one, program_spec(ts, q)->Ok_0);
                }
            },
            Err(_) => {},
        }
    }
}

/// A parse error with the message `Error: <msg>`.
fn syntax_error(msg: &str) -> (e: ExprError)
    ensures
        is_syntax_error(e, msg@),
{
    ExprError::new(String::from_str(msg), SYNTAX_ERROR)
}

/// Whether `k` is an operator of binary level `level`.
fn is_level_op(level: u8, k: TokenType) -> (r: bool)
    ensures
        r == level_ops(level as int, k),
{
    match level {
        EQUALITY => k == TokenType::BangEqual || k == TokenType::EqualEqual,
        COMPARISON => k == TokenType::GreaterThan || k == TokenType::GreaterThanEquals || k
            == TokenType::LessThan || k == TokenType::LessThanEquals,
        TERM => k == TokenType::Minus || k == TokenType::Plus,
        FACTOR => k == TokenType::Slash || k == TokenType::Star,
        _ => false,
    }
}

/// Reads a token stream once, left to right.
pub struct Parser {
    pub tokens: Vec<Token>,
    pub index: usize,
}

impl Parser {
    /// Position of the next unread token.
    pub open spec fn cursor(&self) -> int {
        self.index as int
    }

    /// The stream ends with the end marker and the cursor stands on a token.
    pub open spec fn wf(&self) -> bool {
        stream_ok(self.tokens@) && 0 <= self.cursor() < self.tokens@.len()
    }

    /// The token under the cursor.
    pub open spec fn current(&self) -> Token {
        self.tokens@[self.cursor()]
    }

    /// `next` is `self` after reading on: same stream, still well formed.
    pub open spec fn moved_on(&self, next: &Self) -> bool {
        next.wf() && next.tokens == self.tokens && next.cursor() >= self.cursor()
    }

    pub fn new(tokens: Vec<Token>) -> (p: Self)
        requires
            stream_ok(tokens@),
        ensures
            p.wf(),
            p.tokens == tokens,
            p.cursor() == 0,
    {
        Parser { index: 0, tokens }
    }

    /// Steps past the current token, unless it is the end marker.
    pub fn advance(&mut self)
        requires
            old(self).wf(),
        ensures
            old(self).moved_on(final(self)),
            final(self).cursor() == if old(self).current().kind == TokenType::Eof {
                old(self).cursor()
            } else {
                old(self).cursor() + 1
            },
    {
        if !self.is_at_end() {
            let n = self.tokens.len();
            proof {
                assert(self.tokens@.last() == self.tokens@[n - 1]);
            }
            self.index = self.index + 1;
        }
    }

    /// Whether the cursor stands on the end marker.
    pub fn is_at_end(&self) -> (r: bool)
        requires
            self.wf(),
        ensures
            r == (self.current().kind == TokenType::Eof),
    {
        self.peek().kind == TokenType::Eof
    }

    /// The token under the cursor.
    pub fn peek(&self) -> (r: &Token)
        requires
            self.wf(),
        ensures
            *r == self.current(),
    {
        &self.tokens[self.index]
    }

    /// The token just before the cursor; there is none before the first read.
    pub fn prev(&self) -> (r: &Token)
        requires
            self.wf(),
            self.cursor() > 0,
        ensures
            *r == self.tokens@[self.cursor() - 1],
    {
        &self.tokens[self.index - 1]
    }

    /// If the current token's kind is one of `types`, steps past it and
    /// answers true; otherwise leaves the cursor and answers false.
    pub fn matchexpr(&mut self, types: &[TokenType]) -> (r: bool)
        requires
            old(self).wf(),
        ensures
            old(self).moved_on(final(self)),
            r == types@.contains(old(self).current().kind),
            final(self).cursor() == if r && old(self).current().kind != TokenType::Eof {
                old(self).cursor() + 1
            } else {
                old(self).cursor()
            },
    {
        let k = self.peek().kind;
        let mut i: usize = 0;
        while i < types.len()
            invariant
                self == old(self),
                self.wf(),
                k == self.current().kind,
                i <= types@.len(),
                forall|j: int| 0 <= j < i ==> types@[j] != k,
            decreases types.len() - i,
        {
            if types[i] == k {
                self.advance();
                return true;
            }
            i = i + 1;
        }
        false
    }

    /// If the current token is one of the operators of `level`, steps past it
    /// and hands it back.
    fn match_operator(&mut self, level: u8) -> (r: Option<Token>)
        requires
            old(self).wf(),
        ensures
            old(self).moved_on(final(self)),
            match r {
                Some(t) => level_ops(level as int, old(self).current().kind) && t == old(
                    self,
                ).current() && final(self).cursor() == old(self).cursor() + 1,
                None => !level_ops(level as int, old(self).current().kind) && final(self).cursor()
                    == old(self).cursor(),
            },
    {
        if is_level_op(level, self.peek().kind) {
            let t = self.peek().duplicate();
            self.advance();
            Some(t)
        } else {
            None
        }
    }

    /// If the current token has kind `k`, steps past it and answers true.
    fn match_kind(&mut self, k: TokenType) -> (r: bool)
        requires
            old(self).wf(),
        ensures
            old(self).moved_on(final(self)),
            r == (old(self).current().kind == k),
            final(self).cursor() == if r && k != TokenType::Eof {
                old(self).cursor() + 1
            } else {
                old(self).cursor()
            },
    {
        if self.peek().kind == k {
            self.advance();
            true
        } else {
            false
        }
    }

    /// An expression: the loosest rule, assignment.
    pub fn parse(&mut self) -> (r: Result<Expr, ExprError>)
        requires
            old(self).wf(),
        ensures
            old(self).moved_on(final(self)),
            agrees(r, final(self).cursor(), assignment_spec(old(self).tokens@, old(self).cursor())),
            r is Ok ==> final(self).cursor() > old(self).cursor(),
            r is Ok ==> well_formed(r->Ok_0),
    {
        proof {
            lemma_assignment_wf(self.tokens@, self.cursor());
        }
        self.assignment()
    }

    /// An equality; if `=` follows it, the assigned value, parsed as an
    /// assignment again (so `a = b = c` nests to the right).
    pub fn assignment(&mut self) -> (r: Result<Expr, ExprError>)
        requires
            old(self).wf(),
        ensures
            old(self).moved_on(final(self)),
            agrees(r, final(self).cursor(), assignment_spec(old(self).tokens@, old(self).cursor())),
            r is Ok ==> final(self).cursor() > old(self).cursor(),
        decreases old(self).tokens@.len() - old(self).cursor(), 12int,
    {
        let target = match self.equality() {
            Ok(e) => e,
            Err(e) => return Err(e),
        };
        if self.match_kind(TokenType::Equal) {
            let value = match self.assignment() {
                Ok(e) => e,
                Err(e) => return Err(e),
            };
            Ok(Expr::Assignment(Box::new(target), Box::new(value)))
        } else {
            Ok(target)
        }
    }

    /// Comparisons joined by `==` / `!=`.
    pub fn equality(&mut self) -> (r: Result<Expr, ExprError>)
        requires
            old(self).wf(),
        ensures
            old(self).moved_on(final(self)),
            agrees(
                r,
                final(self).cursor(),
                binary_spec(old(self).tokens@, old(self).cursor(), EQUALITY as int),
            ),
            r is Ok ==> final(self).cursor() > old(self).cursor(),
        decreases old(self).tokens@.len() - old(self).cursor(), 11int,
    {
        self.binary(EQUALITY)
    }

    /// Terms joined by `>`, `>=`, `<`, `<=`.
    pub fn comparison(&mut self) -> (r: Result<Expr, ExprError>)
        requires
            old(self).wf(),
        ensures
            old(self).moved_on(final(self)),
            agrees(
                r,
                final(self).cursor(),
                binary_spec(old(self).tokens@, old(self).cursor(), COMPARISON as int),
            ),
            r is Ok ==> final(self).cursor() > old(self).cursor(),
    {
        self.binary(COMPARISON)
    }

    /// Factors joined by `+` / `-`.
    pub fn term(&mut self) -> (r: Result<Expr, ExprError>)
        requires
            old(self).wf(),
        ensures
            old(self).moved_on(final(self)),
            agrees(r, final(self).cursor(), binary_spec(old(self).tokens@, old(self).cursor(), TERM as int)),
            r is Ok ==> final(self).cursor() > old(self).cursor(),
    {
        self.binary(TERM)
    }

    /// Unary expressions joined by `*` / `/`.
    pub fn factor(&mut self) -> (r: Result<Expr, ExprError>)
        requires
            old(self).wf(),
        ensures
            old(self).moved_on(final(self)),
            agrees(
                r,
                final(self).cursor(),
                binary_spec(old(self).tokens@, old(self).cursor(), FACTOR as int),
            ),
            r is Ok ==> final(self).cursor() > old(self).cursor(),
    {
        self.binary(FACTOR)
    }

    /// One operand of binary level `level`.
    fn operand(&mut self, level: u8) -> (r: Result<Expr, ExprError>)
        requires
            old(self).wf(),
            1 <= level <= 4,
        ensures
            old(self).moved_on(final(self)),
            agrees(r, final(self).cursor(), operand_spec(old(self).tokens@, old(self).cursor(), level as int)),
            r is Ok ==> final(self).cursor() > old(self).cursor(),
        decreases old(self).tokens@.len() - old(self).cursor(), 2 * level + 1,
    {
        if level == 1 {
            self.unary()
        } else {
            self.binary(level - 1)
        }
    }

    /// Binary level `level`: the first operand, then operator and operand
    /// pairs folded into a left-leaning tree.
    fn binary(&mut self, level: u8) -> (r: Result<Expr, ExprError>)
        requires
            old(self).wf(),
            1 <= level <= 4,
        ensures
            old(self).moved_on(final(self)),
            agrees(r, final(self).cursor(), binary_spec(old(self).tokens@, old(self).cursor(), level as int)),
            r is Ok ==> final(self).cursor() > old(self).cursor(),
        decreases old(self).tokens@.len() - old(self).cursor(), 2 * level + 2,
    {
        let ghost ts = self.tokens@;
        let ghost p0 = self.cursor();
        let mut expr = match self.operand(level) {
            Ok(e) => e,
            Err(e) => return Err(e),
        };
        loop
            invariant
                old(self).moved_on(self),
                ts == self.tokens@,
                p0 == old(self).cursor(),
                1 <= level <= 4,
                self.cursor() > p0,
                binary_rest_spec(ts, self.cursor(), level as int, expr) == binary_spec(
                    ts,
                    p0,
                    level as int,
                ),
            decreases ts.len() - self.cursor(),
        {
            match self.match_operator(level) {
                None => {
                    return Ok(expr);
                },
                Some(op) => {
                    let right = match self.operand(level) {
                        Ok(e) => e,
                        Err(e) => return Err(e),
                    };
                    expr = Expr::Binary(op, Box::new(expr), Box::new(right));
                },
            }
        }
    }

    /// Prefix `!` / `-` operators, nested to the right, then a primary.
    pub fn unary(&mut self) -> (r: Result<Expr, ExprError>)
        requires
            old(self).wf(),
        ensures
            old(self).moved_on(final(self)),
            agrees(r, final(self).cursor(), unary_spec(old(self).tokens@, old(self).cursor())),
            r is Ok ==> final(self).cursor() > old(self).cursor(),
        decreases old(self).tokens@.len() - old(self).cursor(), 1int,
    {
        let k = self.peek().kind;
        if k == TokenType::Bang || k == TokenType::Minus {
            let op = self.peek().duplicate();
            self.advance();
            let inner = match self.unary() {
                Ok(e) => e,
                Err(e) => return Err(e),
            };
            Ok(Expr::Unary(op, Box::new(inner)))
        } else {
            self.primary()
        }
    }

    /// One leaf token, or `(` equality `)`.
    pub fn primary(&mut self) -> (r: Result<Expr, ExprError>)
        requires
            old(self).wf(),
        ensures
            old(self).moved_on(final(self)),
            agrees(r, final(self).cursor(), primary_spec(old(self).tokens@, old(self).cursor())),
            r is Ok ==> final(self).cursor() > old(self).cursor(),
            r is Err && old(self).current().kind != TokenType::LeftParen ==> final(self).cursor()
                == old(self).cursor(),
        decreases old(self).tokens@.len() - old(self).cursor(), 0int,
    {
        let k = self.peek().kind;
        match k {
            TokenType::Identifier => {
                let name = self.peek().lexeme.clone();
                self.advance();
                Ok(Expr::Literal(ExprLiteral::Identifier(name)))
            },
            TokenType::True => {
                self.advance();
                Ok(Expr::Literal(ExprLiteral::Bool(true)))
            },
            TokenType::False => {
                self.advance();
                Ok(Expr::Literal(ExprLiteral::Bool(false)))
            },
            TokenType::Nil => {
                self.advance();
                Ok(Expr::Literal(ExprLiteral::Nil))
            },
            TokenType::String => match copy_opt_string(&self.peek().literal) {
                Some(v) => {
                    self.advance();
                    Ok(Expr::Literal(ExprLiteral::String(v)))
                },
                None => Err(syntax_error("Expected string value")),
            },
            TokenType::Number => match copy_opt_string(&self.peek().literal) {
                Some(v) => {
                    self.advance();
                    Ok(Expr::Literal(ExprLiteral::Number(v)))
                },
                None => Err(syntax_error("Expected number value")),
            },
            TokenType::LeftParen => {
                self.advance();
                let inner = match self.equality() {
                    Ok(e) => e,
                    Err(e) => return Err(e),
                };
                if self.peek().kind == TokenType::RightParen {
                    self.advance();
                    Ok(Expr::Grouping(Box::new(inner)))
                } else {
                    Err(syntax_error("Expected ')'"))
                }
            },
            _ => Err(syntax_error("Unexpected token")),
        }
    }

    /// Statements up to the end marker, or the first parse error.
    pub fn stmt_parser(&mut self) -> (r: Result<Vec<Statment>, ExprError>)
        requires
            old(self).wf(),
        ensures
            old(self).moved_on(final(self)),
            match program_spec(old(self).tokens@, old(self).cursor()) {
                Ok(stmts) => r is Ok && r->Ok_0@ == stmts,
                Err(m) => r is Err && is_syntax_error(r->Err_0, m),
            },
            r is Ok ==> stmts_wf(r->Ok_0@),
            r is Ok ==> final(self).current().kind == TokenType::Eof,
    {
        proof {
            lemma_program_wf(self.tokens@, self.cursor());
        }
        let ghost ts = self.tokens@;
        let ghost p0 = self.cursor();
        let mut statments: Vec<Statment> = Vec::new();
        while !self.is_at_end()
            invariant
                old(self).moved_on(self),
                ts == self.tokens@,
                p0 == old(self).cursor(),
                program_spec(ts, p0) == match program_spec(ts, self.cursor()) {
                    Ok(rest) => Ok(statments@ + rest),
                    Err(m) => Err::<Seq<Statment>, Seq<char>>(m),
                },
            decreases ts.len() - self.cursor(),
        {
            let s = match self.statement() {
                Ok(s) => s,
                Err(e) => return Err(e),
            };
            let ghost done = statments@;
            statments.push(s);
            proof {
                match program_spec(ts, self.cursor()) {
                    Ok(rest) => {
                        assert(statments@ + rest =~= done + (seq![s] + rest));
                    },
                    Err(m) => {},
                }
            }
        }
        proof {
            assert(statments@ + Seq::<Statment>::empty() =~= statments@);
        }
        Ok(statments)
    }

    /// A declaration after `var`, a print statement after `print`, or else an
    /// expression statement.
    pub fn statement(&mut self) -> (r: Result<Statment, ExprError>)
        requires
            old(self).wf(),
        ensures
            old(self).moved_on(final(self)),
            agrees(r, final(self).cursor(), statement_spec(old(self).tokens@, old(self).cursor())),
            r is Ok ==> final(self).cursor() > old(self).cursor(),
    {
        if self.matchexpr(&[TokenType::Var]) {
            self.var_decloration()
        } else if self.matchexpr(&[TokenType::Print]) {
            self.print_statment()
        } else {
            self.expr_statment()
        }
    }

    /// The rest of a declaration after `var`: the name, then `;` (the
    /// variable starts as `nil`) or `=`, the initializer and `;`.
    pub fn var_decloration(&mut self) -> (r: Result<Statment, ExprError>)
        requires
            old(self).wf(),
        ensures
            old(self).moved_on(final(self)),
            agrees(r, final(self).cursor(), var_decl_spec(old(self).tokens@, old(self).cursor())),
            r is Ok ==> final(self).cursor() > old(self).cursor(),
    {
        let identifier = match self.equality() {
            Ok(e) => e,
            Err(e) => return Err(e),
        };
        match &identifier {
            Expr::Literal(ExprLiteral::Identifier(_)) => {},
            _ => return Err(syntax_error("expected an identifier")),
        }
        if self.match_kind(TokenType::SemiColon) {
            Ok(Statment::VarDec(identifier, Expr::Literal(ExprLiteral::Nil)))
        } else if self.match_kind(TokenType::Equal) {
            let expr = match self.parse() {
                Ok(e) => e,
                Err(e) => return Err(e),
            };
            if self.match_kind(TokenType::SemiColon) {
                Ok(Statment::VarDec(identifier, expr))
            } else {
                Err(syntax_error("SemiColon expected"))
            }
        } else {
            Err(syntax_error("Unexpected token"))
        }
    }

    /// An expression followed by `;`.
    pub fn expr_statment(&mut self) -> (r: Result<Statment, ExprError>)
        requires
            old(self).wf(),
        ensures
            old(self).moved_on(final(self)),
            agrees(
                r,
                final(self).cursor(),
                match terminated_spec(old(self).tokens@, old(self).cursor()) {
                    Ok((e, q)) => Ok((Statment::ExprStmt(e), q)),
                    Err(m) => Err(m),
                },
            ),
            r is Ok ==> final(self).cursor() > old(self).cursor(),
    {
        let expr = match self.parse() {
            Ok(e) => e,
            Err(e) => return Err(e),
        };
        if self.match_kind(TokenType::SemiColon) {
            Ok(Statment::ExprStmt(expr))
        } else {
            Err(syntax_error("Semicolon expected"))
        }
    }

    /// The rest of a print statement after `print`: an expression and `;`.
    pub fn print_statment(&mut self) -> (r: Result<Statment, ExprError>)
        requires
            old(self).wf(),
        ensures
            old(self).moved_on(final(self)),
            agrees(
                r,
                final(self).cursor(),
                match terminated_spec(old(self).tokens@, old(self).cursor()) {
                    Ok((e, q)) => Ok((Statment::PrintStmt(e), q)),
                    Err(m) => Err(m),
                },
            ),
            r is Ok ==> final(self).cursor() > old(self).cursor(),
    {
        let expr = match self.parse() {
            Ok(e) => e,
            Err(e) => return Err(e),
        };
        if self.match_kind(TokenType::SemiColon) {
            Ok(Statment::PrintStmt(expr))
        } else {
            Err(syntax_error("Semicolon expected"))
        }
    }
}

} // verus!
