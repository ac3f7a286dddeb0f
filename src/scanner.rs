//! The character scanner: source characters in, tokens and lexical errors out.
use vstd::prelude::*;

use crate::token::{Token, TokenType, TokenView};

verus! {

/// Failure code of lexical errors.
pub const LEXICAL_ERROR: i32 = 65;

/// Whether std counts `c` as alphabetic (the Unicode `Alphabetic` property).
pub uninterp spec fn alphabetic(c: char) -> bool;

/// Relies on `char::is_alphabetic`: the Unicode `Alphabetic` property of `c`.
#[verifier::external_body]
fn is_alphabetic(c: char) -> (r: bool)
    ensures
        r == alphabetic(c),
{
    c.is_alphabetic()
}

/// Relies on `String::push`: appends `c` to the string.
#[verifier::external_body]
fn push_char(s: &mut String, c: char)
    ensures
        final(s)@ == old(s)@.push(c),
{
    s.push(c)
}

pub open spec fn is_digit(c: char) -> bool {
    '0' <= c <= '9'
}

/// A character that continues an identifier: ASCII letter or digit, or `_`.
pub open spec fn is_word_char(c: char) -> bool {
    is_digit(c) || ('a' <= c <= 'z') || ('A' <= c <= 'Z') || c == '_'
}

/// The end of the run of characters satisfying `word` (or digits) from `j`.
pub open spec fn run_end(cs: Seq<char>, j: int, word: bool) -> int
    decreases cs.len() - j,
{
    if 0 <= j < cs.len() && (if word { is_word_char(cs[j]) } else { is_digit(cs[j]) }) {
        run_end(cs, j + 1, word)
    } else {
        j
    }
}

/// The first position from `j` holding `c`, or the length when there is none.
pub open spec fn find_char(cs: Seq<char>, j: int, c: char) -> int
    decreases cs.len() - j,
{
    if j < 0 || j >= cs.len() {
        cs.len() as int
    } else if cs[j] == c {
        j
    } else {
        find_char(cs, j + 1, c)
    }
}

/// The first position from `j` that starts `*/`, or the length when there is none.
pub open spec fn find_close(cs: Seq<char>, j: int) -> int
    decreases cs.len() - j,
{
    if j < 0 || j + 1 >= cs.len() {
        cs.len() as int
    } else if cs[j] == '*' && cs[j + 1] == '/' {
        j
    } else {
        find_close(cs, j + 1)
    }
}

/// The number of line breaks in `s`.
pub open spec fn newlines(s: Seq<char>) -> int
    decreases s.len(),
{
    if s.len() == 0 {
        0
    } else {
        newlines(s.drop_last()) + if s.last() == '\n' {
            1int
        } else {
            0
        }
    }
}

/// `s` without its trailing zeros.
pub open spec fn trim_zeros(s: Seq<char>) -> Seq<char>
    decreases s.len(),
{
    if s.len() > 0 && s.last() == '0' {
        trim_zeros(s.drop_last())
    } else {
        s
    }
}

/// Decimal text of a number literal with integer digits `whole` and fraction
/// digits `frac`: at least one fraction digit and no trailing zeros beyond it
/// (`1` gives `1.0`, `1.50` gives `1.5`).
pub open spec fn number_literal(whole: Seq<char>, frac: Seq<char>) -> Seq<char> {
    let f = trim_zeros(frac);
    whole + "."@ + if f.len() == 0 {
        "0"@
    } else {
        f
    }
}

/// The keyword spelled `w`, if it is one.
pub open spec fn keyword(w: Seq<char>) -> Option<TokenType> {
    if w == "and"@ {
        Some(TokenType::And)
    } else if w == "class"@ {
        Some(TokenType::Class)
    } else if w == "else"@ {
        Some(TokenType::Else)
    } else if w == "false"@ {
        Some(TokenType::False)
    } else if w == "for"@ {
        Some(TokenType::For)
    } else if w == "fun"@ {
        Some(TokenType::Fun)
    } else if w == "if"@ {
        Some(TokenType::If)
    } else if w == "nil"@ {
        Some(TokenType::Nil)
    } else if w == "or"@ {
        Some(TokenType::Or)
    } else if w == "print"@ {
        Some(TokenType::Print)
    } else if w == "return"@ {
        Some(TokenType::Return)
    } else if w == "super"@ {
        Some(TokenType::Super)
    } else if w == "this"@ {
        Some(TokenType::This)
    } else if w == "true"@ {
        Some(TokenType::True)
    } else if w == "var"@ {
        Some(TokenType::Var)
    } else if w == "while"@ {
        Some(TokenType::While)
    } else {
        None
    }
}

/// The kind of a token of the single character `c`, if it is one.
pub open spec fn single_kind(c: char) -> Option<TokenType> {
    if c == '(' {
        Some(TokenType::LeftParen)
    } else if c == ')' {
        Some(TokenType::RightParen)
    } else if c == '{' {
        Some(TokenType::LeftBrace)
    } else if c == '}' {
        Some(TokenType::RightBrace)
    } else if c == ',' {
        Some(TokenType::Comma)
    } else if c == '.' {
        Some(TokenType::Dot)
    } else if c == '-' {
        Some(TokenType::Minus)
    } else if c == '+' {
        Some(TokenType::Plus)
    } else if c == '*' {
        Some(TokenType::Star)
    } else if c == ';' {
        Some(TokenType::SemiColon)
    } else {
        None
    }
}

/// Kinds of `c` alone and of `c` followed by `=`, for `=`, `!`, `<`, `>`.
pub open spec fn with_equal_kinds(c: char) -> Option<(TokenType, TokenType)> {
    if c == '=' {
        Some((TokenType::Equal, TokenType::EqualEqual))
    } else if c == '!' {
        Some((TokenType::Bang, TokenType::BangEqual))
    } else if c == '<' {
        Some((TokenType::LessThan, TokenType::LessThanEquals))
    } else if c == '>' {
        Some((TokenType::GreaterThan, TokenType::GreaterThanEquals))
    } else {
        None
    }
}

/// A lexical error: message and line.
pub struct LexError {
    pub msg: Seq<char>,
    pub line: int,
}

/// What one scanning step reads from position `i`: where the next step starts,
/// the tokens and errors it adds, and the line counter after it.
pub struct Step {
    pub next: int,
    pub tokens: Seq<TokenView>,
    pub errors: Seq<LexError>,
    pub line: int,
}

pub open spec fn plain(kind: TokenType, lexeme: Seq<char>) -> TokenView {
    TokenView { kind, lexeme, literal: None }
}

pub open spec fn emit(next: int, t: TokenView, line: int) -> Step {
    Step { next, tokens: seq![t], errors: Seq::empty(), line }
}

pub open spec fn skip(next: int, line: int) -> Step {
    Step { next, tokens: Seq::empty(), errors: Seq::empty(), line }
}

/// A number token (integer digits `cs[i..d]`, fraction digits `cs[d+1..f]`
/// when `d < f`) with its decimal literal.
pub open spec fn number_token(cs: Seq<char>, i: int, d: int, f: int) -> TokenView {
    let whole = cs.subrange(i, d);
    if d < f {
        TokenView {
            kind: TokenType::Number,
            lexeme: cs.subrange(i, f),
            literal: Some(number_literal(whole, cs.subrange(d + 1, f))),
        }
    } else {
        TokenView {
            kind: TokenType::Number,
            lexeme: whole,
            literal: Some(number_literal(whole, Seq::empty())),
        }
    }
}

/// One scanning step at position `i` (inside `cs`) with line counter `line`.
pub open spec fn step(cs: Seq<char>, i: int, line: int) -> Step {
    step_with(cs, i, line, alphabetic(cs[i]))
}

/// One scanning step at position `i`, where `alpha` tells whether the
/// character there is alphabetic (it then starts an identifier or keyword).
pub open spec fn step_with(cs: Seq<char>, i: int, line: int, alpha: bool) -> Step {
    let c = cs[i];
    let then_equal = i + 1 < cs.len() && cs[i + 1] == '=';
    if c == '\n' {
        skip(i + 1, line + 1)
    } else if c == ' ' || c == '\r' || c == '\t' {
        skip(i + 1, line)
    } else if single_kind(c) is Some {
        emit(i + 1, plain(single_kind(c)->Some_0, seq![c]), line)
    } else if with_equal_kinds(c) is Some {
        let (one, two) = with_equal_kinds(c)->Some_0;
        if then_equal {
            emit(i + 2, plain(two, seq![c, '=']), line)
        } else {
            emit(i + 1, plain(one, seq![c]), line)
        }
    } else if c == '/' {
        if i + 1 < cs.len() && cs[i + 1] == '/' {
            let e = find_char(cs, i + 2, '\n');
            if e < cs.len() {
                skip(e + 1, line + 1)
            } else {
                skip(e, line)
            }
        } else if i + 1 < cs.len() && cs[i + 1] == '*' {
            let e = find_close(cs, i + 2);
            let body = line + newlines(cs.subrange(i + 2, e));
            if e < cs.len() {
                skip(e + 2, body)
            } else {
                skip(e, body)
            }
        } else {
            emit(i + 1, plain(TokenType::Slash, seq![c]), line)
        }
    } else if c == '"' {
        let e = find_char(cs, i + 1, '"');
        let inner = cs.subrange(i + 1, e);
        let after = line + newlines(inner);
        if e < cs.len() {
            emit(
                e + 1,
                TokenView {
                    kind: TokenType::String,
                    lexeme: cs.subrange(i, e + 1),
                    literal: Some(inner),
                },
                after,
            )
        } else {
            Step {
                next: e,
                tokens: Seq::empty(),
                errors: seq![LexError { msg: "Error: Unterminated string."@, line: after }],
                line: after,
            }
        }
    } else if alpha || c == '_' {
        let e = run_end(cs, i + 1, true);
        let w = cs.subrange(i, e);
        let kind = match keyword(w) {
            Some(k) => k,
            None => TokenType::Identifier,
        };
        emit(e, plain(kind, w), line)
    } else if is_digit(c) {
        let d = run_end(cs, i + 1, false);
        if d < cs.len() && cs[d] == '.' {
            let f = run_end(cs, d + 1, false);
            if f == d + 1 {
                Step {
                    next: d + 1,
                    tokens: seq![number_token(cs, i, d, d), plain(TokenType::Dot, seq!['.'])],
                    errors: Seq::empty(),
                    line,
                }
            } else {
                emit(f, number_token(cs, i, d, f), line)
            }
        } else {
            emit(d, number_token(cs, i, d, d), line)
        }
    } else {
        Step {
            next: i + 1,
            tokens: Seq::empty(),
            errors: seq![LexError { msg: "Error: Unexpected character: "@ + seq![c], line }],
            line,
        }
    }
}

/// Everything scanned from position `i` with line counter `line`.
pub struct Lexed {
    pub tokens: Seq<TokenView>,
    pub errors: Seq<LexError>,
    pub line: int,
}

/// Scanning `cs` from position `i` to the end.
pub open spec fn lex(cs: Seq<char>, i: int, line: int) -> Lexed
    decreases cs.len() - i,
{
    if i < 0 || i >= cs.len() {
        Lexed { tokens: Seq::empty(), errors: Seq::empty(), line }
    } else {
        let s = step(cs, i, line);
        if i < s.next <= cs.len() {
            let rest = lex(cs, s.next, s.line);
            Lexed { tokens: s.tokens + rest.tokens, errors: s.errors + rest.errors, line: rest.line }
        } else {
            Lexed { tokens: Seq::empty(), errors: Seq::empty(), line }
        }
    }
}

/// Views of a sequence of tokens.
pub open spec fn token_views(ts: Seq<Token>) -> Seq<TokenView> {
    ts.map_values(|t: Token| t@)
}

/// A lexical error as the scanner reports it.
#[derive(Debug)]
pub struct TokenError {
    pub msg: String,
    pub line: i32,
    pub exitcode: i32,
}

impl TokenError {
    pub fn new(msg: String, line: i32, exitcode: i32) -> (e: Self)
        ensures
            e.msg == msg,
            e.line == line,
            e.exitcode == exitcode,
    {
        TokenError { msg, line, exitcode }
    }

    pub open spec fn view(&self) -> LexError {
        LexError { msg: self.msg@, line: self.line as int }
    }
}

/// Views of a sequence of lexical errors.
pub open spec fn error_views(es: Seq<TokenError>) -> Seq<LexError> {
    es.map_values(|e: TokenError| e.view())
}

proof fn lemma_newlines_bound(s: Seq<char>)
    ensures
        0 <= newlines(s) <= s.len(),
    decreases s.len(),
{
    if s.len() > 0 {
        lemma_newlines_bound(s.drop_last());
    }
}

fn word_char(c: char) -> (r: bool)
    ensures
        r == is_word_char(c),
{
    ('0' <= c && c <= '9') || ('a' <= c && c <= 'z') || ('A' <= c && c <= 'Z') || c == '_'
}

fn continues_run(c: char, word: bool) -> (r: bool)
    ensures
        r == if word {
            is_word_char(c)
        } else {
            is_digit(c)
        },
{
    if word {
        word_char(c)
    } else {
        '0' <= c && c <= '9'
    }
}

/// The end of the run of word characters (or digits) from `j`.
fn scan_run(cs: &Vec<char>, j: usize, word: bool) -> (r: usize)
    requires
        j <= cs@.len(),
    ensures
        r as int == run_end(cs@, j as int, word),
        j <= r <= cs@.len(),
{
    let mut k = j;
    while k < cs.len() && continues_run(cs[k], word)
        invariant
            j <= k <= cs@.len(),
            run_end(cs@, j as int, word) == run_end(cs@, k as int, word),
        decreases cs@.len() - k,
    {
        k = k + 1;
    }
    k
}

/// The first position from `j` holding `c`, or the length.
fn scan_for(cs: &Vec<char>, j: usize, c: char) -> (r: usize)
    requires
        j <= cs@.len(),
    ensures
        r as int == find_char(cs@, j as int, c),
        j <= r <= cs@.len(),
        r < cs@.len() ==> cs@[r as int] == c,
{
    let mut k = j;
    while k < cs.len() && cs[k] != c
        invariant
            j <= k <= cs@.len(),
            find_char(cs@, j as int, c) == find_char(cs@, k as int, c),
        decreases cs@.len() - k,
    {
        k = k + 1;
    }
    k
}

/// The first position from `j` that starts `*/`, or the length.
fn scan_for_close(cs: &Vec<char>, j: usize) -> (r: usize)
    requires
        j <= cs@.len(),
    ensures
        r as int == find_close(cs@, j as int),
        j <= r <= cs@.len(),
        r < cs@.len() ==> r + 1 < cs@.len(),
{
    let mut k = j;
    while k < cs.len() && k + 1 < cs.len() && !(cs[k] == '*' && cs[k + 1] == '/')
        invariant
            j <= k <= cs@.len(),
            find_close(cs@, j as int) == find_close(cs@, k as int),
        decreases cs@.len() - k,
    {
        k = k + 1;
    }
    if k < cs.len() && k + 1 < cs.len() {
        k
    } else {
        cs.len()
    }
}

/// The number of line breaks in `cs[a..b]`.
fn count_newlines(cs: &Vec<char>, a: usize, b: usize) -> (r: usize)
    requires
        a <= b <= cs@.len(),
    ensures
        r as int == newlines(cs@.subrange(a as int, b as int)),
        r <= b - a,
{
    let mut k = a;
    let mut n: usize = 0;
    while k < b
        invariant
            a <= k <= b <= cs@.len(),
            n as int == newlines(cs@.subrange(a as int, k as int)),
            n <= k - a,
        decreases b - k,
    {
        proof {
            assert(cs@.subrange(a as int, k + 1).drop_last() =~= cs@.subrange(a as int, k as int));
        }
        if cs[k] == '\n' {
            n = n + 1;
        }
        k = k + 1;
    }
    n
}

/// The characters `cs[a..b]` as a string.
fn collect(cs: &Vec<char>, a: usize, b: usize) -> (r: String)
    requires
        a <= b <= cs@.len(),
    ensures
        r@ == cs@.subrange(a as int, b as int),
{
    let mut s = String::new();
    let mut k = a;
    while k < b
        invariant
            a <= k <= b <= cs@.len(),
            s@ == cs@.subrange(a as int, k as int),
        decreases b - k,
    {
        push_char(&mut s, cs[k]);
        proof {
            assert(s@ =~= cs@.subrange(a as int, k + 1));
        }
        k = k + 1;
    }
    s
}

/// The keyword spelled `w`, if it is one.
fn keyword_kind(w: &String) -> (r: Option<TokenType>)
    ensures
        r == keyword(w@),
{
    if *w == String::from_str("and") {
        Some(TokenType::And)
    } else if *w == String::from_str("class") {
        Some(TokenType::Class)
    } else if *w == String::from_str("else") {
        Some(TokenType::Else)
    } else if *w == String::from_str("false") {
        Some(TokenType::False)
    } else if *w == String::from_str("for") {
        Some(TokenType::For)
    } else if *w == String::from_str("fun") {
        Some(TokenType::Fun)
    } else if *w == String::from_str("if") {
        Some(TokenType::If)
    } else if *w == String::from_str("nil") {
        Some(TokenType::Nil)
    } else if *w == String::from_str("or") {
        Some(TokenType::Or)
    } else if *w == String::from_str("print") {
        Some(TokenType::Print)
    } else if *w == String::from_str("return") {
        Some(TokenType::Return)
    } else if *w == String::from_str("super") {
        Some(TokenType::Super)
    } else if *w == String::from_str("this") {
        Some(TokenType::This)
    } else if *w == String::from_str("true") {
        Some(TokenType::True)
    } else if *w == String::from_str("var") {
        Some(TokenType::Var)
    } else if *w == String::from_str("while") {
        Some(TokenType::While)
    } else {
        None
    }
}

/// The number token with integer digits `cs[i..d]` and, when `d < f`,
/// fraction digits `cs[d+1..f]`.
fn make_number(cs: &Vec<char>, i: usize, d: usize, f: usize) -> (t: Token)
    requires
        i <= d <= f <= cs@.len(),
        d < f ==> d + 1 <= f && cs@[d as int] == '.',
    ensures
        t@ == number_token(cs@, i as int, d as int, f as int),
{
    let whole = collect(cs, i, d);
    let mut literal = collect(cs, i, d);
    literal.append(".");
    let ghost frac = if d < f { cs@.subrange(d + 1, f as int) } else { Seq::<char>::empty() };
    let start = if d < f { d + 1 } else { f };
    let mut k = f;
    while k > start && cs[k - 1] == '0'
        invariant
            start <= k <= f <= cs@.len(),
            frac == cs@.subrange(start as int, f as int),
            trim_zeros(frac) == trim_zeros(cs@.subrange(start as int, k as int)),
        decreases k,
    {
        proof {
            let sub = cs@.subrange(start as int, k as int);
            assert(sub.drop_last() =~= cs@.subrange(start as int, k - 1));
        }
        k = k - 1;
    }
    proof {
        if k > start {
            let sub = cs@.subrange(start as int, k as int);
            assert(sub.last() == cs@[k - 1]);
        } else {
            assert(cs@.subrange(start as int, k as int) =~= Seq::<char>::empty());
        }
    }
    if k > start {
        let tail = collect(cs, start, k);
        literal.append(tail.as_str());
    } else {
        literal.append("0");
    }
    let lexeme = if d < f {
        collect(cs, i, f)
    } else {
        whole
    };
    proof {
        if d < f {
            assert(frac == cs@.subrange(d + 1, f as int));
        } else {
            assert(cs@.subrange(f as int, f as int) =~= Seq::<char>::empty());
        }
    }
    Token::newToken(TokenType::Number, lexeme, Some(literal))
}

fn single_kind_of(c: char) -> (r: Option<TokenType>)
    ensures
        r == single_kind(c),
{
    match c {
        '(' => Some(TokenType::LeftParen),
        ')' => Some(TokenType::RightParen),
        '{' => Some(TokenType::LeftBrace),
        '}' => Some(TokenType::RightBrace),
        ',' => Some(TokenType::Comma),
        '.' => Some(TokenType::Dot),
        '-' => Some(TokenType::Minus),
        '+' => Some(TokenType::Plus),
        '*' => Some(TokenType::Star),
        ';' => Some(TokenType::SemiColon),
        _ => None,
    }
}

fn with_equal_kinds_of(c: char) -> (r: Option<(TokenType, TokenType)>)
    ensures
        r == with_equal_kinds(c),
{
    match c {
        '=' => Some((TokenType::Equal, TokenType::EqualEqual)),
        '!' => Some((TokenType::Bang, TokenType::BangEqual)),
        '<' => Some((TokenType::LessThan, TokenType::LessThanEquals)),
        '>' => Some((TokenType::GreaterThan, TokenType::GreaterThanEquals)),
        _ => None,
    }
}

fn push_token(tokens: &mut Vec<Token>, t: Token)
    ensures
        token_views(final(tokens)@) == token_views(old(tokens)@) + seq![t@],
{
    let ghost tv = t@;
    tokens.push(t);
    proof {
        assert(token_views(tokens@) =~= token_views(old(tokens)@) + seq![tv]);
    }
}

fn push_error(errors: &mut Vec<TokenError>, e: TokenError)
    ensures
        error_views(final(errors)@) == error_views(old(errors)@) + seq![e.view()],
{
    let ghost ev = e.view();
    errors.push(e);
    proof {
        assert(error_views(errors@) =~= error_views(old(errors)@) + seq![ev]);
    }
}

/// A token without literal whose lexeme is the one character `c` (then `=`
/// when `equal`).
fn char_token(kind: TokenType, c: char, equal: bool) -> (t: Token)
    ensures
        t@ == plain(kind, if equal { seq![c, '='] } else { seq![c] }),
{
    let mut s = String::new();
    push_char(&mut s, c);
    if equal {
        push_char(&mut s, '=');
    }
    proof {
        if equal {
            assert(s@ =~= seq![c, '=']);
        } else {
            assert(s@ =~= seq![c]);
        }
    }
    Token::newToken(kind, s, None)
}

/// One scanning step at position `i`, given whether the character there is
/// alphabetic: appends its tokens and errors and returns where the next step
/// starts and the line counter after it.
pub fn scan_token(
    cs: &Vec<char>,
    i: usize,
    line: i32,
    alpha: bool,
    tokens: &mut Vec<Token>,
    errors: &mut Vec<TokenError>,
) -> (r: (usize, i32))
    requires
        i < cs@.len(),
        line as int + (cs@.len() - i) <= i32::MAX,
    ensures
        r.0 as int == step_with(cs@, i as int, line as int, alpha).next,
        r.1 as int == step_with(cs@, i as int, line as int, alpha).line,
        i < r.0 <= cs@.len(),
        line <= r.1,
        r.1 - line <= r.0 - i,
        token_views(final(tokens)@) == token_views(old(tokens)@) + step_with(cs@, i as int, line as int, alpha).tokens,
        error_views(final(errors)@) == error_views(old(errors)@) + step_with(cs@, i as int, line as int, alpha).errors,
{
    let ghost st = step_with(cs@, i as int, line as int, alpha);
    let len = cs.len();
    let c = cs[i];
    if c == '\n' {
        proof {
            assert(token_views(tokens@) + st.tokens =~= token_views(tokens@));
            assert(error_views(errors@) + st.errors =~= error_views(errors@));
        }
        return (i + 1, line + 1);
    }
    if c == ' ' || c == '\r' || c == '\t' {
        proof {
            assert(token_views(tokens@) + st.tokens =~= token_views(tokens@));
            assert(error_views(errors@) + st.errors =~= error_views(errors@));
        }
        return (i + 1, line);
    }
    match single_kind_of(c) {
        Some(k) => {
            proof {
                assert(error_views(errors@) + st.errors =~= error_views(errors@));
            }
            push_token(tokens, char_token(k, c, false));
            return (i + 1, line);
        },
        None => {},
    }
    match with_equal_kinds_of(c) {
        Some((one, two)) => {
            proof {
                assert(error_views(errors@) + st.errors =~= error_views(errors@));
            }
            if i + 1 < cs.len() && cs[i + 1] == '=' {
                push_token(tokens, char_token(two, c, true));
                return (i + 2, line);
            } else {
                push_token(tokens, char_token(one, c, false));
                return (i + 1, line);
            }
        },
        None => {},
    }
    if c == '/' {
        if i + 1 < cs.len() && cs[i + 1] == '/' {
            proof {
                assert(token_views(tokens@) + st.tokens =~= token_views(tokens@));
                assert(error_views(errors@) + st.errors =~= error_views(errors@));
            }
            let e = scan_for(cs, i + 2, '\n');
            if e < cs.len() {
                return (e + 1, line + 1);
            } else {
                return (e, line);
            }
        } else if i + 1 < cs.len() && cs[i + 1] == '*' {
            proof {
                assert(token_views(tokens@) + st.tokens =~= token_views(tokens@));
                assert(error_views(errors@) + st.errors =~= error_views(errors@));
            }
            let e = scan_for_close(cs, i + 2);
            let n = count_newlines(cs, i + 2, e);
            let after = (line as i64 + n as i64) as i32;
            if e < cs.len() {
                return (e + 2, after);
            } else {
                return (e, after);
            }
        } else {
            proof {
                assert(error_views(errors@) + st.errors =~= error_views(errors@));
            }
            push_token(tokens, char_token(TokenType::Slash, c, false));
            return (i + 1, line);
        }
    }
    if c == '"' {
        let e = scan_for(cs, i + 1, '"');
        let n = count_newlines(cs, i + 1, e);
        let after = (line as i64 + n as i64) as i32;
        if e < cs.len() {
            proof {
                assert(error_views(errors@) + st.errors =~= error_views(errors@));
            }
            let lexeme = collect(cs, i, e + 1);
            let inner = collect(cs, i + 1, e);
            push_token(tokens, Token::newToken(TokenType::String, lexeme, Some(inner)));
            return (e + 1, after);
        } else {
            proof {
                assert(token_views(tokens@) + st.tokens =~= token_views(tokens@));
            }
            push_error(
                errors,
                TokenError::new(String::from_str("Error: Unterminated string."), after, LEXICAL_ERROR),
            );
            return (e, after);
        }
    }
    if alpha || c == '_' {
        proof {
            assert(error_views(errors@) + st.errors =~= error_views(errors@));
        }
        let e = scan_run(cs, i + 1, true);
        let w = collect(cs, i, e);
        let kind = match keyword_kind(&w) {
            Some(k) => k,
            None => TokenType::Identifier,
        };
        push_token(tokens, Token::newToken(kind, w, None));
        return (e, line);
    }
    if '0' <= c && c <= '9' {
        proof {
            assert(error_views(errors@) + st.errors =~= error_views(errors@));
        }
        let d = scan_run(cs, i + 1, false);
        if d < cs.len() && cs[d] == '.' {
            let f = scan_run(cs, d + 1, false);
            if f == d + 1 {
                let ghost before = token_views(tokens@);
                push_token(tokens, make_number(cs, i, d, d));
                push_token(tokens, char_token(TokenType::Dot, '.', false));
                proof {
                    assert(token_views(tokens@) =~= before + st.tokens);
                }
                return (d + 1, line);
            } else {
                push_token(tokens, make_number(cs, i, d, f));
                return (f, line);
            }
        } else {
            push_token(tokens, make_number(cs, i, d, d));
            return (d, line);
        }
    }
    proof {
        assert(token_views(tokens@) + st.tokens =~= token_views(tokens@));
    }
    let mut msg = String::from_str("Error: Unexpected character: ");
    push_char(&mut msg, c);
    proof {
        assert(msg@ =~= "Error: Unexpected character: "@ + seq![c]);
    }
    push_error(errors, TokenError::new(msg, line, LEXICAL_ERROR));
    (i + 1, line)
}

/// Scans source characters into tokens, keeping a line counter.
pub struct Lexer {
    pub line: i32,
    pub tokens: Vec<Token>,
    pub errors: Vec<TokenError>,
}

impl Lexer {
    /// Line 1, nothing scanned yet.
    pub fn new() -> (l: Self)
        ensures
            l.line == 1,
            l.tokens@.len() == 0,
            l.errors@.len() == 0,
    {
        Lexer { line: 1, tokens: Vec::new(), errors: Vec::new() }
    }

    /// Scans `characters` from the current line on. The tokens and lexical
    /// errors found replace the earlier ones; the line counter advances by
    /// the line breaks read. Answers 65 if there was any error, else 0.
    pub fn tokenize(&mut self, characters: &Vec<char>) -> (r: i32)
        requires
            old(self).line as int + characters@.len() <= i32::MAX,
        ensures
            ({
                let l = lex(characters@, 0, old(self).line as int);
                &&& token_views(final(self).tokens@) == l.tokens
                &&& error_views(final(self).errors@) == l.errors
                &&& final(self).line as int == l.line
                &&& r == if l.errors.len() > 0 {
                    LEXICAL_ERROR
                } else {
                    0
                }
            }),
    {
        let ghost cs = characters@;
        let ghost line0 = self.line as int;
        let mut tokens: Vec<Token> = Vec::new();
        let mut errors: Vec<TokenError> = Vec::new();
        let mut i: usize = 0;
        let mut line = self.line;
        proof {
            assert(token_views(tokens@) =~= Seq::<TokenView>::empty());
            assert(error_views(errors@) =~= Seq::<LexError>::empty());
            assert(Seq::<TokenView>::empty() + lex(cs, 0, line0).tokens =~= lex(cs, 0, line0).tokens);
            assert(Seq::<LexError>::empty() + lex(cs, 0, line0).errors =~= lex(cs, 0, line0).errors);
        }
        while i < characters.len()
            invariant
                cs == characters@,
                i <= cs.len(),
                line0 + cs.len() <= i32::MAX,
                line as int <= line0 + i,
                lex(cs, 0, line0) == (Lexed {
                    tokens: token_views(tokens@) + lex(cs, i as int, line as int).tokens,
                    errors: error_views(errors@) + lex(cs, i as int, line as int).errors,
                    line: lex(cs, i as int, line as int).line,
                }),
            decreases cs.len() - i,
        {
            let ghost t0 = token_views(tokens@);
            let ghost e0 = error_views(errors@);
            let ghost st = step(cs, i as int, line as int);
            let alpha = is_alphabetic(characters[i]);
            let (next, l2) = scan_token(characters, i, line, alpha, &mut tokens, &mut errors);
            proof {
                let rest = lex(cs, next as int, l2 as int);
                assert(t0 + (st.tokens + rest.tokens) =~= token_views(tokens@) + rest.tokens);
                assert(e0 + (st.errors + rest.errors) =~= error_views(errors@) + rest.errors);
            }
            i = next;
            line = l2;
        }
        proof {
            assert(token_views(tokens@) + Seq::<TokenView>::empty() =~= token_views(tokens@));
            assert(error_views(errors@) + Seq::<LexError>::empty() =~= error_views(errors@));
        }
        self.tokens = tokens;
        self.errors = errors;
        self.line = line;
        if self.errors.len() > 0 {
            LEXICAL_ERROR
        } else {
            0
        }
    }
}

} // verus!
