use script_core::expr::{Expr, ExprError, ExprLiteral};
use script_core::interpret::all_well_formed;
use script_core::parse::Parser;
use script_core::statement::Statment;
use script_core::token::{Token, TokenType};

fn tok(kind: TokenType, lexeme: &str) -> Token {
    Token::newToken(kind, lexeme.to_string(), None)
}

fn num(text: &str) -> Token {
    Token::newToken(TokenType::Number, text.to_string(), Some(text.to_string()))
}

fn string(text: &str) -> Token {
    Token::newToken(TokenType::String, format!("\"{}\"", text), Some(text.to_string()))
}

fn ident(name: &str) -> Token {
    tok(TokenType::Identifier, name)
}

fn eof() -> Token {
    tok(TokenType::Eof, "")
}

fn parser(mut tokens: Vec<Token>) -> Parser {
    tokens.push(eof());
    Parser::new(tokens)
}

fn parse_expr(tokens: Vec<Token>) -> Result<Expr, ExprError> {
    parser(tokens).parse()
}

fn parse_program(tokens: Vec<Token>) -> Result<Vec<Statment>, ExprError> {
    parser(tokens).stmt_parser()
}

#[test]
fn grouping_times_three_parses_as_binary_of_grouping() {
    let e = parse_expr(vec![
        tok(TokenType::LeftParen, "("),
        num("1"),
        tok(TokenType::Plus, "+"),
        num("2"),
        tok(TokenType::RightParen, ")"),
        tok(TokenType::Star, "*"),
        num("3"),
    ])
    .unwrap();
    assert_eq!(e.render(), "(* (group (+ 1 2)) 3)");
    match e {
        Expr::Binary(op, left, right) => {
            assert_eq!(op.kind, TokenType::Star);
            assert!(matches!(*right, Expr::Literal(ExprLiteral::Number(ref n)) if n == "3"));
            match *left {
                Expr::Grouping(inner) => match *inner {
                    Expr::Binary(op, l, r) => {
                        assert_eq!(op.kind, TokenType::Plus);
                        assert!(matches!(*l, Expr::Literal(ExprLiteral::Number(ref n)) if n == "1"));
                        assert!(matches!(*r, Expr::Literal(ExprLiteral::Number(ref n)) if n == "2"));
                    }
                    _ => panic!("expected a binary node inside the grouping"),
                },
                _ => panic!("expected a grouping"),
            }
        }
        _ => panic!("expected a binary node"),
    }
}

#[test]
fn unterminated_grouping_fails_with_syntax_code() {
    let e = parse_expr(vec![
        tok(TokenType::LeftParen, "("),
        num("1"),
        tok(TokenType::Plus, "+"),
        num("2"),
    ])
    .unwrap_err();
    assert_eq!(e.code, 65);
    assert_eq!(e.msg, "Error: Expected ')'");
}

#[test]
fn precedence_and_left_folding() {
    // 1 - 2 - 3 * 4 < 5 == true
    let e = parse_expr(vec![
        num("1"),
        tok(TokenType::Minus, "-"),
        num("2"),
        tok(TokenType::Minus, "-"),
        num("3"),
        tok(TokenType::Star, "*"),
        num("4"),
        tok(TokenType::LessThan, "<"),
        num("5"),
        tok(TokenType::EqualEqual, "=="),
        tok(TokenType::True, "true"),
    ])
    .unwrap();
    assert_eq!(e.render(), "(== (< (- (- 1 2) (* 3 4)) 5) true)");
}

#[test]
fn unary_prefixes_nest() {
    let e = parse_expr(vec![
        tok(TokenType::Bang, "!"),
        tok(TokenType::Bang, "!"),
        tok(TokenType::Minus, "-"),
        num("7"),
        tok(TokenType::Slash, "/"),
        tok(TokenType::Nil, "nil"),
    ])
    .unwrap();
    assert_eq!(e.render(), "(/ (! (! (- 7))) nil)");
}

#[test]
fn assignment_nests_to_the_right() {
    let e = parse_expr(vec![
        ident("a"),
        tok(TokenType::Equal, "="),
        ident("b"),
        tok(TokenType::Equal, "="),
        string("hi"),
    ])
    .unwrap();
    assert_eq!(e.render(), "(= a (= b hi))");
}

#[test]
fn unexpected_token_in_primary() {
    let e = parse_expr(vec![tok(TokenType::Plus, "+")]).unwrap_err();
    assert_eq!(e.msg, "Error: Unexpected token");
    assert_eq!(e.code, 65);
    let e = parse_expr(vec![]).unwrap_err();
    assert_eq!(e.msg, "Error: Unexpected token");
}

#[test]
fn literal_token_without_value_is_rejected() {
    let e = parse_expr(vec![tok(TokenType::String, "\"x\"")]).unwrap_err();
    assert_eq!(e.msg, "Error: Expected string value");
    let e = parse_expr(vec![tok(TokenType::Number, "1")]).unwrap_err();
    assert_eq!(e.msg, "Error: Expected number value");
}

#[test]
fn program_of_three_statements() {
    let stmts = parse_program(vec![
        tok(TokenType::Var, "var"),
        ident("x"),
        tok(TokenType::Equal, "="),
        num("5"),
        tok(TokenType::SemiColon, ";"),
        ident("x"),
        tok(TokenType::Equal, "="),
        num("6"),
        tok(TokenType::SemiColon, ";"),
        tok(TokenType::Print, "print"),
        ident("x"),
        tok(TokenType::SemiColon, ";"),
    ])
    .unwrap();
    assert_eq!(stmts.len(), 3);
    assert!(all_well_formed(&stmts));
    match &stmts[0] {
        Statment::VarDec(name, init) => {
            assert_eq!(name.render(), "x");
            assert_eq!(init.render(), "5");
        }
        _ => panic!("expected a declaration"),
    }
    match &stmts[1] {
        Statment::ExprStmt(e) => assert_eq!(e.render(), "(= x 6)"),
        _ => panic!("expected an expression statement"),
    }
    match &stmts[2] {
        Statment::PrintStmt(e) => assert_eq!(e.render(), "x"),
        _ => panic!("expected a print statement"),
    }
}

#[test]
fn declaration_without_initializer_is_nil() {
    let stmts = parse_program(vec![
        tok(TokenType::Var, "var"),
        ident("y"),
        tok(TokenType::SemiColon, ";"),
    ])
    .unwrap();
    match &stmts[0] {
        Statment::VarDec(name, init) => {
            assert_eq!(name.render(), "y");
            assert!(matches!(init, Expr::Literal(ExprLiteral::Nil)));
        }
        _ => panic!("expected a declaration"),
    }
}

#[test]
fn empty_program_has_no_statements() {
    assert_eq!(parse_program(vec![]).unwrap().len(), 0);
}

#[test]
fn missing_semicolons_are_errors() {
    let e = parse_program(vec![tok(TokenType::Print, "print"), num("1")]).unwrap_err();
    assert_eq!(e.msg, "Error: Semicolon expected");
    assert_eq!(e.code, 65);
    let e = parse_program(vec![num("1")]).unwrap_err();
    assert_eq!(e.msg, "Error: Semicolon expected");
    let e = parse_program(vec![
        tok(TokenType::Var, "var"),
        ident("x"),
        tok(TokenType::Equal, "="),
        num("1"),
    ])
    .unwrap_err();
    assert_eq!(e.msg, "Error: SemiColon expected");
}

#[test]
fn declaration_needs_an_identifier() {
    let e = parse_program(vec![
        tok(TokenType::Var, "var"),
        num("1"),
        tok(TokenType::SemiColon, ";"),
    ])
    .unwrap_err();
    assert_eq!(e.msg, "Error: expected an identifier");
    let e = parse_program(vec![
        tok(TokenType::Var, "var"),
        ident("x"),
        tok(TokenType::Plus, "+"),
    ])
    .unwrap_err();
    assert_eq!(e.msg, "Error: Unexpected token");
}

#[test]
fn cursor_helpers() {
    let mut p = parser(vec![num("1"), tok(TokenType::Plus, "+")]);
    assert!(!p.is_at_end());
    assert_eq!(p.peek().lexeme, "1");
    assert!(!p.matchexpr(&[TokenType::Plus, TokenType::Minus]));
    assert!(p.matchexpr(&[TokenType::Minus, TokenType::Number]));
    assert_eq!(p.prev().lexeme, "1");
    p.advance();
    assert!(p.is_at_end());
    p.advance();
    assert!(p.is_at_end());
    assert!(p.matchexpr(&[TokenType::Eof]));
    assert!(p.is_at_end());
}

#[test]
fn single_levels_parse_alone() {
    let mut p = parser(vec![num("1"), tok(TokenType::GreaterThanEquals, ">="), num("2")]);
    assert_eq!(p.comparison().unwrap().render(), "(>= 1 2)");
    let mut p = parser(vec![num("1"), tok(TokenType::Plus, "+"), num("2")]);
    assert_eq!(p.term().unwrap().render(), "(+ 1 2)");
    let mut p = parser(vec![num("1"), tok(TokenType::Star, "*"), num("2"), tok(TokenType::Plus, "+")]);
    assert_eq!(p.factor().unwrap().render(), "(* 1 2)");
    let mut p = parser(vec![tok(TokenType::Minus, "-"), num("2")]);
    assert_eq!(p.unary().unwrap().render(), "(- 2)");
    let mut p = parser(vec![tok(TokenType::False, "false")]);
    assert_eq!(p.primary().unwrap().render(), "false");
}

#[test]
fn error_constructors() {
    let e = ExprError::new("boom".to_string(), 65);
    assert_eq!(e.msg, "Error: boom");
    assert_eq!(e.code, 65);
    let e = ExprError::MissingToken(65);
    assert_eq!(e.msg, "");
    assert_eq!(e.code, 65);
}

#[test]
fn token_listing() {
    assert_eq!(TokenType::BangEqual.name(), "BANG_EQUAL");
    assert_eq!(TokenType::LessThanEquals.name(), "LESS_EQUAL");
    assert_eq!(string("hi").describe(), "STRING \"hi\" hi");
    assert_eq!(tok(TokenType::Plus, "+").describe(), "PLUS + null");
    let t = num("2.5");
    let d = t.duplicate();
    assert_eq!(d.lexeme, "2.5");
    assert_eq!(d.literal, Some("2.5".to_string()));
}

#[test]
fn failed_primary_leaves_the_cursor() {
    let mut p = parser(vec![tok(TokenType::String, "\"x\""), num("1")]);
    assert_eq!(p.primary().unwrap_err().code, 65);
    assert_eq!(p.peek().kind, TokenType::String);
    let mut p = parser(vec![tok(TokenType::Number, "1")]);
    assert_eq!(p.primary().unwrap_err().msg, "Error: Expected number value");
    assert_eq!(p.peek().kind, TokenType::Number);
    for kind in [TokenType::Plus, TokenType::SemiColon, TokenType::RightParen] {
        let mut p = parser(vec![tok(kind, "?"), num("1")]);
        let e = p.primary().unwrap_err();
        assert_eq!((e.msg.as_str(), e.code), ("Error: Unexpected token", 65));
        assert_eq!(p.peek().kind, kind);
    }
    let mut p = parser(vec![]);
    assert_eq!(p.primary().unwrap_err().msg, "Error: Unexpected token");
    assert!(p.is_at_end());
}

#[test]
fn program_parse_ends_on_the_end_marker() {
    let mut p = parser(vec![num("1"), tok(TokenType::SemiColon, ";"), tok(TokenType::Print, "print"), num("2"), tok(TokenType::SemiColon, ";")]);
    assert_eq!(p.stmt_parser().unwrap().len(), 2);
    assert!(p.is_at_end());
}
