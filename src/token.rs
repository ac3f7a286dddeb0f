//! Tokens as the scanner hands them over.
use vstd::prelude::*;

verus! {

/// The kind of a token.
#[derive(Debug, Clone, Copy, PartialEq, Eq, Structural)]
pub enum TokenType {
    LeftParen,
    RightParen,
    LeftBrace,
    RightBrace,
    Comma,
    Dot,
    Minus,
    Star,
    Plus,
    SemiColon,
    Bang,
    BangEqual,
    LessThan,
    LessThanEquals,
    GreaterThan,
    GreaterThanEquals,
    Slash,
    String,
    Number,
    Identifier,
    And,
    Class,
    False,
    Else,
    For,
    Fun,
    If,
    Nil,
    Or,
    Print,
    Return,
    Super,
    This,
    True,
    Var,
    While,
    Eof,
    Equal,
    EqualEqual,
    NewLine,
}

/// Upper-case name under which a token kind is listed.
pub open spec fn kind_name(k: TokenType) -> Seq<char> {
    match k {
        TokenType::LeftParen => "LEFT_PAREN"@,
        TokenType::RightParen => "RIGHT_PAREN"@,
        TokenType::LeftBrace => "LEFT_BRACE"@,
        TokenType::RightBrace => "RIGHT_BRACE"@,
        TokenType::Comma => "COMMA"@,
        TokenType::Dot => "DOT"@,
        TokenType::Minus => "MINUS"@,
        TokenType::Star => "STAR"@,
        TokenType::Plus => "PLUS"@,
        TokenType::SemiColon => "SEMICOLON"@,
        TokenType::Bang => "BANG"@,
        TokenType::BangEqual => "BANG_EQUAL"@,
        TokenType::LessThan => "LESS"@,
        TokenType::LessThanEquals => "LESS_EQUAL"@,
        TokenType::GreaterThan => "GREATER"@,
        TokenType::GreaterThanEquals => "GREATER_EQUAL"@,
        TokenType::Slash => "SLASH"@,
        TokenType::String => "STRING"@,
        TokenType::Number => "NUMBER"@,
        TokenType::Identifier => "IDENTIFIER"@,
        TokenType::And => "AND"@,
        TokenType::Class => "CLASS"@,
        TokenType::False => "FALSE"@,
        TokenType::Else => "ELSE"@,
        TokenType::For => "FOR"@,
        TokenType::Fun => "FUN"@,
        TokenType::If => "IF"@,
        TokenType::Nil => "NIL"@,
        TokenType::Or => "OR"@,
        TokenType::Print => "PRINT"@,
        TokenType::Return => "RETURN"@,
        TokenType::Super => "SUPER"@,
        TokenType::This => "THIS"@,
        TokenType::True => "TRUE"@,
        TokenType::Var => "VAR"@,
        TokenType::While => "WHILE"@,
        TokenType::Equal => "EQUAL"@,
        TokenType::EqualEqual => "EQUAL_EQUAL"@,
        TokenType::Eof => "EOF"@,
        TokenType::NewLine => "EOF"@,
    }
}

impl TokenType {
    /// The listing name of this kind (`LEFT_PAREN`, `BANG_EQUAL`, ...).
    pub fn name(&self) -> (r: &'static str)
        ensures
            r@ == kind_name(*self),
    {
        match self {
            TokenType::LeftParen => "LEFT_PAREN",
            TokenType::RightParen => "RIGHT_PAREN",
            TokenType::LeftBrace => "LEFT_BRACE",
            TokenType::RightBrace => "RIGHT_BRACE",
            TokenType::Comma => "COMMA",
            TokenType::Dot => "DOT",
            TokenType::Minus => "MINUS",
            TokenType::Star => "STAR",
            TokenType::Plus => "PLUS",
            TokenType::SemiColon => "SEMICOLON",
            TokenType::Bang => "BANG",
            TokenType::BangEqual => "BANG_EQUAL",
            TokenType::LessThan => "LESS",
            TokenType::LessThanEquals => "LESS_EQUAL",
            TokenType::GreaterThan => "GREATER",
            TokenType::GreaterThanEquals => "GREATER_EQUAL",
            TokenType::Slash => "SLASH",
            TokenType::String => "STRING",
            TokenType::Number => "NUMBER",
            TokenType::Identifier => "IDENTIFIER",
            TokenType::And => "AND",
            TokenType::Class => "CLASS",
            TokenType::False => "FALSE",
            TokenType::Else => "ELSE",
            TokenType::For => "FOR",
            TokenType::Fun => "FUN",
            TokenType::If => "IF",
            TokenType::Nil => "NIL",
            TokenType::Or => "OR",
            TokenType::Print => "PRINT",
            TokenType::Return => "RETURN",
            TokenType::Super => "SUPER",
            TokenType::This => "THIS",
            TokenType::True => "TRUE",
            TokenType::Var => "VAR",
            TokenType::While => "WHILE",
            TokenType::Equal => "EQUAL",
            TokenType::EqualEqual => "EQUAL_EQUAL",
            TokenType::Eof => "EOF",
            TokenType::NewLine => "EOF",
        }
    }
}

/// A classified lexical unit: its kind, its source text, and for strings and
/// numbers the decoded literal text.
#[derive(Debug, Clone)]
pub struct Token {
    pub kind: TokenType,
    pub lexeme: String,
    pub literal: Option<String>,
}

/// The mathematical view of a [`Token`].
pub struct TokenView {
    pub kind: TokenType,
    pub lexeme: Seq<char>,
    pub literal: Option<Seq<char>>,
}

impl View for Token {
    type V = TokenView;

    open spec fn view(&self) -> TokenView {
        TokenView {
            kind: self.kind,
            lexeme: self.lexeme@,
            literal: match self.literal {
                Some(v) => Some(v@),
                None => None,
            },
        }
    }
}

/// A copy of an optional string.
pub fn copy_opt_string(o: &Option<String>) -> (r: Option<String>)
    ensures
        r == *o,
{
    match o {
        Some(s) => Some(s.clone()),
        None => None,
    }
}

/// The line under which a token is listed: kind name, lexeme, literal (or `null`).
pub open spec fn token_line(t: Token) -> Seq<char> {
    let lit = match t.literal {
        Some(v) => v@,
        None => "null"@,
    };
    kind_name(t.kind) + " "@ + t.lexeme@ + " "@ + lit
}

impl Token {
    #[allow(non_snake_case)]
    pub fn newToken(kind: TokenType, lexeme: String, literal: Option<String>) -> (t: Token)
        ensures
            t.kind == kind,
            t.lexeme == lexeme,
            t.literal == literal,
    {
        Token { kind, lexeme, literal }
    }

    /// A copy of this token, field for field.
    pub fn duplicate(&self) -> (t: Token)
        ensures
            t == *self,
    {
        Token { kind: self.kind, lexeme: self.lexeme.clone(), literal: copy_opt_string(&self.literal) }
    }

    /// The listing line of this token, e.g. `STRING "hi" hi` or `PLUS + null`.
    pub fn describe(&self) -> (r: String)
        ensures
            r@ == token_line(*self),
    {
        let mut r = String::from_str(self.kind.name());
        r.append(" ");
        r.append(self.lexeme.as_str());
        r.append(" ");
        match &self.literal {
            Some(v) => r.append(v.as_str()),
            None => r.append("null"),
        }
        r
    }
}

} // verus!
