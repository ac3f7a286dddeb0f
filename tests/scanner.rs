use script_core::interpret::Interpreter;
use script_core::parse::Parser;
use script_core::scanner::{scan_token, Lexer, TokenError};
use script_core::token::{Token, TokenType};
use script_core::value::FloatOp;

fn scan(src: &str) -> (Lexer, i32) {
    let chars: Vec<char> = src.chars().collect();
    let mut lexer = Lexer::new();
    let code = lexer.tokenize(&chars);
    (lexer, code)
}

fn listing(tokens: &[Token]) -> Vec<String> {
    tokens.iter().map(|t| t.describe()).collect()
}

fn arith(op: FloatOp) -> u32 {
    let f = f32::from_bits;
    match op {
        FloatOp::Parse(text) => text.parse::<f32>().unwrap().to_bits(),
        FloatOp::Add(a, b) => (f(a) + f(b)).to_bits(),
        FloatOp::Subtract(a, b) => (f(a) - f(b)).to_bits(),
        FloatOp::Multiply(a, b) => (f(a) * f(b)).to_bits(),
        FloatOp::Divide(a, b) => (f(a) / f(b)).to_bits(),
    }
}

fn show(n: u32) -> String {
    format!("{}", f32::from_bits(n))
}

#[test]
fn punctuation_and_operators() {
    let (lx, code) = scan("(){},.-+;*/ = == ! != < <= > >=");
    assert_eq!(code, 0);
    let kinds: Vec<TokenType> = lx.tokens.iter().map(|t| t.kind).collect();
    assert_eq!(
        kinds,
        vec![
            TokenType::LeftParen,
            TokenType::RightParen,
            TokenType::LeftBrace,
            TokenType::RightBrace,
            TokenType::Comma,
            TokenType::Dot,
            TokenType::Minus,
            TokenType::Plus,
            TokenType::SemiColon,
            TokenType::Star,
            TokenType::Slash,
            TokenType::Equal,
            TokenType::EqualEqual,
            TokenType::Bang,
            TokenType::BangEqual,
            TokenType::LessThan,
            TokenType::LessThanEquals,
            TokenType::GreaterThan,
            TokenType::GreaterThanEquals,
        ]
    );
    assert_eq!(lx.tokens[14].lexeme, "!=");
}

#[test]
fn number_literals_get_decimal_text() {
    let (lx, code) = scan("1 1.50 10 2.0 123.");
    assert_eq!(code, 0);
    assert_eq!(
        listing(&lx.tokens),
        vec![
            "NUMBER 1 1.0",
            "NUMBER 1.50 1.5",
            "NUMBER 10 10.0",
            "NUMBER 2.0 2.0",
            "NUMBER 123 123.0",
            "DOT . null",
        ]
    );
}

/// An identifier starts with any alphabetic character or `_` and continues
/// with ASCII letters, digits and `_` only.
#[test]
fn strings_identifiers_and_keywords() {
    let (lx, code) = scan("var été = \"a\nb\"; print _x1 and nil");
    assert_eq!(code, 0);
    assert_eq!(
        listing(&lx.tokens),
        vec![
            "VAR var null",
            "IDENTIFIER ét null",
            "IDENTIFIER é null",
            "EQUAL = null",
            "STRING \"a\nb\" a\nb",
            "SEMICOLON ; null",
            "PRINT print null",
            "IDENTIFIER _x1 null",
            "AND and null",
            "NIL nil null",
        ]
    );
    assert_eq!(lx.line, 2);
}

#[test]
fn comments_are_skipped() {
    let (lx, code) = scan("1 // one\n/* two\nlines */ 2 / 3");
    assert_eq!(code, 0);
    assert_eq!(
        listing(&lx.tokens),
        vec!["NUMBER 1 1.0", "NUMBER 2 2.0", "SLASH / null", "NUMBER 3 3.0"]
    );
    assert_eq!(lx.line, 3);
}

#[test]
fn lexical_errors() {
    let (lx, code) = scan("@\n\"open");
    assert_eq!(code, 65);
    assert_eq!(lx.tokens.len(), 0);
    assert_eq!(lx.errors.len(), 2);
    assert_eq!(lx.errors[0].msg, "Error: Unexpected character: @");
    assert_eq!(lx.errors[0].line, 1);
    assert_eq!(lx.errors[1].msg, "Error: Unterminated string.");
    assert_eq!(lx.errors[1].line, 2);
    assert_eq!(lx.errors[1].exitcode, 65);
    let e = TokenError::new("m".to_string(), 4, 65);
    assert_eq!((e.msg.as_str(), e.line, e.exitcode), ("m", 4, 65));
}

#[test]
fn source_to_output() {
    let (lx, code) = scan("var a = (1 + 2) * 3;\nprint a;\nprint \"x\" + \"y\";\nprint !nil == true;");
    assert_eq!(code, 0);
    let mut tokens = lx.tokens;
    tokens.push(Token::newToken(TokenType::Eof, String::new(), None));
    let stmts = Parser::new(tokens).stmt_parser().unwrap();
    let mut out = Vec::new();
    Interpreter::new().interpret(stmts, &mut out, &arith, &show).unwrap();
    assert_eq!(out, vec!["9".to_string(), "xy".to_string(), "true".to_string()]);
}

#[test]
fn one_step_given_the_alphabetic_answer() {
    let cs: Vec<char> = "é1 x".chars().collect();
    let mut tokens = Vec::new();
    let mut errors = Vec::new();
    assert_eq!(scan_token(&cs, 0, 1, true, &mut tokens, &mut errors), (2, 1));
    assert_eq!(listing(&tokens), vec!["IDENTIFIER é1 null"]);
    assert!(errors.is_empty());

    let mut tokens = Vec::new();
    let mut errors = Vec::new();
    assert_eq!(scan_token(&cs, 0, 1, false, &mut tokens, &mut errors), (1, 1));
    assert!(tokens.is_empty());
    assert_eq!(errors[0].msg, "Error: Unexpected character: é");

    let mut tokens = Vec::new();
    let mut errors = Vec::new();
    assert_eq!(scan_token(&cs, 3, 1, true, &mut tokens, &mut errors), (4, 1));
    assert_eq!(listing(&tokens), vec!["IDENTIFIER x null"]);
}
