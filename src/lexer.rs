//! The lexer: one forward scan over the characters of the source.
use vstd::prelude::*;
use crate::error::{Error, ErrorManager};
use crate::literal::{FloatArith, Literal, Value};
use crate::text::{char_vec, span_is, substring};
use crate::token::{Token, TokenType};

verus! {

/// What a token is, as a value: kind, line, exact text and literal value. The
/// value of a float literal is the host's (see [`FloatArith`]) and stands here
/// as `None`.
pub struct TokenModel {
    pub kind: TokenType,
    pub line: int,
    pub lexeme: Seq<char>,
    pub literal: Option<Value>,
}

/// A lexical error: its line and message.
pub struct Diagnostic {
    pub line: int,
    pub message: Seq<char>,
}

/// What a scan from some position yields: the tokens, the errors, and the
/// line it ends on.
pub struct ScanModel {
    pub tokens: Seq<TokenModel>,
    pub diags: Seq<Diagnostic>,
    pub line: int,
}

/// One step of the scan: the position and line after it, and what it emits.
pub struct Step {
    pub next: int,
    pub line: int,
    pub token: Option<TokenModel>,
    pub diag: Option<Diagnostic>,
}

pub open spec fn is_digit(c: char) -> bool {
    '0' <= c && c <= '9'
}

pub open spec fn is_alpha(c: char) -> bool {
    ('a' <= c && c <= 'z') || ('A' <= c && c <= 'Z') || c == '_'
}

pub open spec fn is_alphanumeric(c: char) -> bool {
    is_digit(c) || is_alpha(c)
}

/// How many digits follow from `i` on.
pub open spec fn digit_run(s: Seq<char>, i: int) -> nat
    decreases s.len() - i,
{
    if 0 <= i < s.len() && is_digit(s[i]) {
        1 + digit_run(s, i + 1)
    } else {
        0
    }
}

/// How many letters, digits and underscores follow from `i` on.
pub open spec fn word_run(s: Seq<char>, i: int) -> nat
    decreases s.len() - i,
{
    if 0 <= i < s.len() && is_alphanumeric(s[i]) {
        1 + word_run(s, i + 1)
    } else {
        0
    }
}

/// How many characters from `i` on come before the first `stop` (or the end).
pub open spec fn run_until(s: Seq<char>, i: int, stop: char) -> nat
    decreases s.len() - i,
{
    if 0 <= i < s.len() && s[i] != stop {
        1 + run_until(s, i + 1, stop)
    } else {
        0
    }
}

pub open spec fn newlines(t: Seq<char>) -> nat
    decreases t.len(),
{
    if t.len() == 0 {
        0
    } else {
        newlines(t.drop_last()) + if t.last() == '\n' { 1nat } else { 0nat }
    }
}

/// The value of a run of decimal digits.
pub open spec fn digits_value(d: Seq<char>) -> nat
    decreases d.len(),
{
    if d.len() == 0 {
        0
    } else {
        digits_value(d.drop_last()) * 10 + ((d.last() as u32) - ('0' as u32)) as nat
    }
}

/// The token kind of a single-character token.
pub open spec fn single(c: char) -> Option<TokenType> {
    if c == '(' { Some(TokenType::LEFTPAREN) }
    else if c == ')' { Some(TokenType::RIGHTPAREN) }
    else if c == '{' { Some(TokenType::LEFTBRACE) }
    else if c == '}' { Some(TokenType::RIGHTBRACE) }
    else if c == '.' { Some(TokenType::DOT) }
    else if c == ',' { Some(TokenType::COMMA) }
    else if c == '+' { Some(TokenType::PLUS) }
    else if c == '-' { Some(TokenType::MINUS) }
    else if c == '*' { Some(TokenType::STAR) }
    else if c == ';' { Some(TokenType::SEMICOLON) }
    else if c == '^' { Some(TokenType::XOR) }
    else if c == '%' { Some(TokenType::MODULO) }
    else if c == '&' { Some(TokenType::AMPERSAND) }
    else if c == '|' { Some(TokenType::PIPE) }
    else if c == '?' { Some(TokenType::QUESTION) }
    else if c == ':' { Some(TokenType::COLON) }
    else { None }
}

/// The reserved word `w`, if it is one.
pub open spec fn keyword(w: Seq<char>) -> Option<TokenType> {
    if w == "and"@ { Some(TokenType::AND) }
    else if w == "or"@ { Some(TokenType::OR) }
    else if w == "class"@ { Some(TokenType::CLASS) }
    else if w == "else"@ { Some(TokenType::ELSE) }
    else if w == "false"@ { Some(TokenType::FALSE) }
    else if w == "if"@ { Some(TokenType::IF) }
    else if w == "for"@ { Some(TokenType::FOR) }
    else if w == "fun"@ { Some(TokenType::FUN) }
    else if w == "print"@ { Some(TokenType::PRINT) }
    else if w == "return"@ { Some(TokenType::RETURN) }
    else if w == "nil"@ { Some(TokenType::NIL) }
    else if w == "super"@ { Some(TokenType::SUPER) }
    else if w == "this"@ { Some(TokenType::THIS) }
    else if w == "true"@ { Some(TokenType::TRUE) }
    else if w == "var"@ { Some(TokenType::VAR) }
    else if w == "while"@ { Some(TokenType::WHILE) }
    else { None }
}

/// Whether the character at `i` is `c`.
pub open spec fn char_at(s: Seq<char>, i: int, c: char) -> bool {
    0 <= i < s.len() && s[i] == c
}

pub open spec fn emit(next: int, line: int, kind: TokenType, s: Seq<char>, i: int, literal: Option<Value>) -> Step {
    Step {
        next,
        line,
        token: Some(TokenModel { kind, line, lexeme: s.subrange(i, next), literal }),
        diag: None,
    }
}

pub open spec fn skip(next: int, line: int) -> Step {
    Step { next, line, token: None, diag: None }
}

pub open spec fn fail(next: int, line: int, message: Seq<char>) -> Step {
    Step { next, line, token: None, diag: Some(Diagnostic { line, message }) }
}

/// A choice between a two-character operator (`c` then `second`) and a
/// one-character one.
pub open spec fn pair(s: Seq<char>, i: int, line: int, second: char, two: TokenType, one: TokenType) -> Step {
    if char_at(s, i + 1, second) {
        emit(i + 2, line, two, s, i, None)
    } else {
        emit(i + 1, line, one, s, i, None)
    }
}

/// A string literal opening at `i`.
pub open spec fn string_step(s: Seq<char>, i: int, line: int) -> Step {
    let q = i + 1 + run_until(s, i + 1, '"');
    let at = line + newlines(s.subrange(i + 1, q));
    if q < s.len() {
        emit(q + 1, at, TokenType::STRING, s, i, Some(Value::Str(s.subrange(i + 1, q))))
    } else {
        fail(s.len() as int, at, "Unterminated String"@)
    }
}

/// A number starting at `i`: digits, then `.` and digits only where a digit
/// follows the `.`.
pub open spec fn number_step(s: Seq<char>, i: int, line: int) -> Step {
    let e = i + 1 + digit_run(s, i + 1);
    if char_at(s, e, '.') && e + 1 < s.len() && is_digit(s[e + 1]) {
        emit(e + 2 + digit_run(s, e + 2), line, TokenType::FLOAT, s, i, None)
    } else {
        let v = digits_value(s.subrange(i, e));
        if v <= i64::MAX {
            emit(e, line, TokenType::INTEGER, s, i, Some(Value::Int(v as i64)))
        } else {
            fail(e, line, "Integer literal out of range"@)
        }
    }
}

/// An identifier or reserved word starting at `i`.
pub open spec fn word_step(s: Seq<char>, i: int, line: int) -> Step {
    let e = i + 1 + word_run(s, i + 1);
    match keyword(s.subrange(i, e)) {
        Some(k) => emit(e, line, k, s, i, None),
        None => emit(e, line, TokenType::IDENTIFIER, s, i, None),
    }
}

/// The scan of the token (or blank, comment or error) that starts at `i`.
pub open spec fn step(s: Seq<char>, i: int, line: int) -> Step {
    let c = s[i];
    if single(c) is Some {
        emit(i + 1, line, single(c)->Some_0, s, i, None)
    } else if c == '!' {
        pair(s, i, line, '=', TokenType::BANGEQUAL, TokenType::BANG)
    } else if c == '=' {
        pair(s, i, line, '=', TokenType::EQUALEQUAL, TokenType::EQUAL)
    } else if c == '>' {
        if char_at(s, i + 1, '>') {
            emit(i + 2, line, TokenType::GREATERGREATER, s, i, None)
        } else {
            pair(s, i, line, '=', TokenType::GREATEREQUAL, TokenType::GREATER)
        }
    } else if c == '<' {
        if char_at(s, i + 1, '<') {
            emit(i + 2, line, TokenType::LESSLESS, s, i, None)
        } else {
            pair(s, i, line, '=', TokenType::LESSEQUAL, TokenType::LESS)
        }
    } else if c == '/' {
        if char_at(s, i + 1, '/') {
            skip(i + 2 + run_until(s, i + 2, '\n'), line)
        } else {
            emit(i + 1, line, TokenType::SLASH, s, i, None)
        }
    } else if c == ' ' || c == '\t' || c == '\r' {
        skip(i + 1, line)
    } else if c == '\n' {
        skip(i + 1, line + 1)
    } else if c == '"' {
        string_step(s, i, line)
    } else if is_digit(c) {
        number_step(s, i, line)
    } else if is_alpha(c) {
        word_step(s, i, line)
    } else {
        fail(i + 1, line, "Unexpected token"@)
    }
}

pub open spec fn opt_seq<T>(o: Option<T>) -> Seq<T> {
    match o {
        Some(x) => seq![x],
        None => Seq::empty(),
    }
}

/// The scan from position `i`, on line `line`, to the end of `s`.
pub open spec fn scan(s: Seq<char>, i: int, line: int) -> ScanModel
    decreases s.len() - i,
{
    if i < 0 || i >= s.len() {
        ScanModel { tokens: Seq::empty(), diags: Seq::empty(), line }
    } else {
        let st = step(s, i, line);
        // A step always advances and stays within `s` (see `lemma_step_bounds`);
        // the test makes that evident to the termination check.
        if st.next <= i || st.next > s.len() {
            ScanModel { tokens: Seq::empty(), diags: Seq::empty(), line }
        } else {
            let rest = scan(s, st.next, st.line);
            ScanModel {
                tokens: opt_seq(st.token) + rest.tokens,
                diags: opt_seq(st.diag) + rest.diags,
                line: rest.line,
            }
        }
    }
}

/// The end marker: the last line, and empty text.
pub open spec fn eof_token(line: int) -> TokenModel {
    TokenModel { kind: TokenType::EOF, line, lexeme: Seq::empty(), literal: None }
}

/// The tokens of `s`: the scan from the start on line 1, then the end marker.
pub open spec fn lex_tokens(s: Seq<char>) -> Seq<TokenModel> {
    let sc = scan(s, 0, 1);
    sc.tokens.push(eof_token(sc.line))
}

/// The lexical errors of `s`, in order.
pub open spec fn lex_diags(s: Seq<char>) -> Seq<Diagnostic> {
    scan(s, 0, 1).diags
}

/// Whether `t` is the token that `m` describes.
pub open spec fn token_is(t: Token, m: TokenModel) -> bool {
    &&& t.token_type == m.kind
    &&& t.line as int == m.line
    &&& t.lexeme@ == m.lexeme
    &&& if m.kind == TokenType::FLOAT {
        t.literal is Some && t.literal->Some_0 is Float
    } else {
        match t.literal {
            Some(v) => m.literal == Some(v@),
            None => m.literal is None,
        }
    }
}

/// Whether `e` is the recorded form of the lexical error `d`.
pub open spec fn error_is(e: Error, d: Diagnostic) -> bool {
    &&& e.line as int == d.line
    &&& e.message@ == d.message
    &&& e.why@ == Seq::<char>::empty()
}

pub proof fn lemma_digit_run_bound(s: Seq<char>, i: int)
    requires
        0 <= i <= s.len(),
    ensures
        i + digit_run(s, i) <= s.len(),
    decreases s.len() - i,
{
    if i < s.len() {
        lemma_digit_run_bound(s, i + 1);
    }
}

pub proof fn lemma_word_run_bound(s: Seq<char>, i: int)
    requires
        0 <= i <= s.len(),
    ensures
        i + word_run(s, i) <= s.len(),
    decreases s.len() - i,
{
    if i < s.len() {
        lemma_word_run_bound(s, i + 1);
    }
}

pub proof fn lemma_run_until_bound(s: Seq<char>, i: int, stop: char)
    requires
        0 <= i <= s.len(),
    ensures
        i + run_until(s, i, stop) <= s.len(),
        i + run_until(s, i, stop) < s.len() ==> s[i + run_until(s, i, stop)] == stop,
    decreases s.len() - i,
{
    if i < s.len() {
        lemma_run_until_bound(s, i + 1, stop);
    }
}

pub proof fn lemma_newlines_bound(t: Seq<char>)
    ensures
        newlines(t) <= t.len(),
    decreases t.len(),
{
    if t.len() > 0 {
        lemma_newlines_bound(t.drop_last());
    }
}

/// Every step advances, and stays within the source.
pub proof fn lemma_step_bounds(s: Seq<char>, i: int, line: int)
    requires
        0 <= i < s.len(),
    ensures
        i < step(s, i, line).next <= s.len(),
        step(s, i, line).line <= line + (step(s, i, line).next - i),
        line <= step(s, i, line).line,
{
    lemma_digit_run_bound(s, i + 1);
    lemma_word_run_bound(s, i + 1);
    lemma_run_until_bound(s, i + 1, '"');
    if i + 2 <= s.len() {
        lemma_run_until_bound(s, i + 2, '\n');
    }
    let e = i + 1 + digit_run(s, i + 1);
    if e + 2 <= s.len() {
        lemma_digit_run_bound(s, e + 2);
    }
    let q = i + 1 + run_until(s, i + 1, '"');
    lemma_newlines_bound(s.subrange(i + 1, q));
}

fn digit_end(cs: &Vec<char>, i: usize) -> (e: usize)
    requires
        i <= cs@.len(),
    ensures
        e == i + digit_run(cs@, i as int),
        forall|k: int| i <= k < e ==> is_digit(#[trigger] cs@[k]),
{
    let mut k: usize = i;
    while k < cs.len() && is_digit_char(cs[k])
        invariant
            i <= k <= cs@.len(),
            i + digit_run(cs@, i as int) == k + digit_run(cs@, k as int),
            forall|j: int| i <= j < k ==> is_digit(#[trigger] cs@[j]),
        decreases cs@.len() - k,
    {
        k = k + 1;
    }
    k
}

fn word_end(cs: &Vec<char>, i: usize) -> (e: usize)
    requires
        i <= cs@.len(),
    ensures
        e == i + word_run(cs@, i as int),
{
    let mut k: usize = i;
    while k < cs.len() && (is_digit_char(cs[k]) || is_alpha_char(cs[k]))
        invariant
            i <= k <= cs@.len(),
            i + word_run(cs@, i as int) == k + word_run(cs@, k as int),
        decreases cs@.len() - k,
    {
        k = k + 1;
    }
    k
}

/// The position of the first `stop` from `i` on, or the end, and how many
/// newlines come before it.
fn find_char(cs: &Vec<char>, i: usize, stop: char) -> (r: (usize, usize))
    requires
        i <= cs@.len(),
    ensures
        r.0 == i + run_until(cs@, i as int, stop),
        r.1 == newlines(cs@.subrange(i as int, r.0 as int)),
{
    let mut k: usize = i;
    let mut n: usize = 0;
    while k < cs.len() && cs[k] != stop
        invariant
            i <= k <= cs@.len(),
            i + run_until(cs@, i as int, stop) == k + run_until(cs@, k as int, stop),
            n == newlines(cs@.subrange(i as int, k as int)),
            n <= k - i,
        decreases cs@.len() - k,
    {
        proof {
            assert(cs@.subrange(i as int, k as int + 1).drop_last() =~= cs@.subrange(i as int, k as int));
        }
        if cs[k] == '\n' {
            n = n + 1;
        }
        k = k + 1;
    }
    (k, n)
}

fn is_digit_char(c: char) -> (r: bool)
    ensures
        r == is_digit(c),
{
    '0' <= c && c <= '9'
}

fn is_alpha_char(c: char) -> (r: bool)
    ensures
        r == is_alpha(c),
{
    ('a' <= c && c <= 'z') || ('A' <= c && c <= 'Z') || c == '_'
}

fn keyword_of(cs: &Vec<char>, a: usize, b: usize) -> (r: Option<TokenType>)
    requires
        a <= b <= cs@.len(),
    ensures
        r == keyword(cs@.subrange(a as int, b as int)),
{
    if span_is(cs, a, b, "and") { Some(TokenType::AND) }
    else if span_is(cs, a, b, "or") { Some(TokenType::OR) }
    else if span_is(cs, a, b, "class") { Some(TokenType::CLASS) }
    else if span_is(cs, a, b, "else") { Some(TokenType::ELSE) }
    else if span_is(cs, a, b, "false") { Some(TokenType::FALSE) }
    else if span_is(cs, a, b, "if") { Some(TokenType::IF) }
    else if span_is(cs, a, b, "for") { Some(TokenType::FOR) }
    else if span_is(cs, a, b, "fun") { Some(TokenType::FUN) }
    else if span_is(cs, a, b, "print") { Some(TokenType::PRINT) }
    else if span_is(cs, a, b, "return") { Some(TokenType::RETURN) }
    else if span_is(cs, a, b, "nil") { Some(TokenType::NIL) }
    else if span_is(cs, a, b, "super") { Some(TokenType::SUPER) }
    else if span_is(cs, a, b, "this") { Some(TokenType::THIS) }
    else if span_is(cs, a, b, "true") { Some(TokenType::TRUE) }
    else if span_is(cs, a, b, "var") { Some(TokenType::VAR) }
    else if span_is(cs, a, b, "while") { Some(TokenType::WHILE) }
    else { None }
}

fn single_of(c: char) -> (r: Option<TokenType>)
    ensures
        r == single(c),
{
    if c == '(' { Some(TokenType::LEFTPAREN) }
    else if c == ')' { Some(TokenType::RIGHTPAREN) }
    else if c == '{' { Some(TokenType::LEFTBRACE) }
    else if c == '}' { Some(TokenType::RIGHTBRACE) }
    else if c == '.' { Some(TokenType::DOT) }
    else if c == ',' { Some(TokenType::COMMA) }
    else if c == '+' { Some(TokenType::PLUS) }
    else if c == '-' { Some(TokenType::MINUS) }
    else if c == '*' { Some(TokenType::STAR) }
    else if c == ';' { Some(TokenType::SEMICOLON) }
    else if c == '^' { Some(TokenType::XOR) }
    else if c == '%' { Some(TokenType::MODULO) }
    else if c == '&' { Some(TokenType::AMPERSAND) }
    else if c == '|' { Some(TokenType::PIPE) }
    else if c == '?' { Some(TokenType::QUESTION) }
    else if c == ':' { Some(TokenType::COLON) }
    else { None }
}

/// The value of the digits from `a` up to `b`, or `None` where it exceeds `i64::MAX`.
fn digits_to_int(cs: &Vec<char>, a: usize, b: usize) -> (r: Option<i64>)
    requires
        a <= b <= cs@.len(),
        forall|k: int| a <= k < b ==> is_digit(#[trigger] cs@[k]),
    ensures
        match r {
            Some(v) => v as int == digits_value(cs@.subrange(a as int, b as int)),
            None => digits_value(cs@.subrange(a as int, b as int)) > i64::MAX,
        },
{
    let mut acc: i64 = 0;
    let mut k: usize = a;
    assert(cs@.subrange(a as int, a as int) =~= Seq::<char>::empty());
    while k < b
        invariant
            a <= k <= b <= cs@.len(),
            forall|j: int| a <= j < b ==> is_digit(#[trigger] cs@[j]),
            acc >= 0,
            acc as int == digits_value(cs@.subrange(a as int, k as int)),
        decreases b - k,
    {
        let ghost prev = cs@.subrange(a as int, k as int);
        let ghost next = cs@.subrange(a as int, k as int + 1);
        assert(next.drop_last() =~= prev);
        assert(is_digit(cs@[k as int]));
        let d: i64 = ((cs[k] as u32) - ('0' as u32)) as i64;
        assert(digits_value(next) == digits_value(prev) * 10 + d);
        match acc.checked_mul(10) {
            Some(m) => match m.checked_add(d) {
                Some(v) => {
                    acc = v;
                },
                None => {
                    proof { lemma_digits_grow(cs@, a as int, k as int + 1, b as int); }
                    return None;
                },
            },
            None => {
                proof { lemma_digits_grow(cs@, a as int, k as int + 1, b as int); }
                return None;
            },
        }
        k = k + 1;
    }
    Some(acc)
}

/// More digits never make a smaller value.
pub proof fn lemma_digits_grow(s: Seq<char>, a: int, k: int, b: int)
    requires
        0 <= a <= k <= b <= s.len(),
    ensures
        digits_value(s.subrange(a, k)) <= digits_value(s.subrange(a, b)),
    decreases b - k,
{
    if k < b {
        lemma_digits_grow(s, a, k + 1, b);
        assert(s.subrange(a, k + 1).drop_last() =~= s.subrange(a, k));
    }
}

fn make_token(cs: &Vec<char>, a: usize, b: usize, kind: TokenType, line: usize, literal: Option<Literal>) -> (t: Token)
    requires
        a <= b <= cs@.len(),
    ensures
        t.token_type == kind,
        t.line == line,
        t.lexeme@ == cs@.subrange(a as int, b as int),
        t.literal == literal,
{
    Token::new(kind, line, substring(cs, a, b), literal)
}

/// The outcome of one step: the position and line after it, and what it emits.
pub type StepResult = (usize, usize, Option<Token>, Option<Error>);

/// Whether `r` is what the step `st` describes.
pub open spec fn step_is(r: StepResult, st: Step) -> bool {
    &&& r.0 as int == st.next
    &&& r.1 as int == st.line
    &&& match st.token {
        Some(m) => r.2 is Some && token_is(r.2->Some_0, m),
        None => r.2 is None,
    }
    &&& match st.diag {
        Some(d) => r.3 is Some && error_is(r.3->Some_0, d),
        None => r.3 is None,
    }
}

fn token_step(cs: &Vec<char>, i: usize, next: usize, kind: TokenType, line: usize) -> (r: StepResult)
    requires
        i < next <= cs@.len(),
        kind != TokenType::FLOAT,
    ensures
        step_is(r, emit(next as int, line as int, kind, cs@, i as int, None)),
{
    (next, line, Some(make_token(cs, i, next, kind, line, None)), None)
}

fn error_step(next: usize, line: usize, message: &str) -> (r: StepResult)
    ensures
        step_is(r, fail(next as int, line as int, message@)),
{
    (next, line, None, Some(Error::new(line, message.to_string(), String::new())))
}

fn scan_string(cs: &Vec<char>, i: usize, line: usize) -> (r: StepResult)
    requires
        i < cs@.len() <= isize::MAX,
        line <= i + 1,
    ensures
        step_is(r, string_step(cs@, i as int, line as int)),
{
    let (q, n) = find_char(cs, i + 1, '"');
    proof {
        lemma_run_until_bound(cs@, i + 1, '"');
        lemma_newlines_bound(cs@.subrange(i + 1, q as int));
    }
    let at = line + n;
    if q < cs.len() {
        let text = substring(cs, i + 1, q);
        (q + 1, at, Some(make_token(cs, i, q + 1, TokenType::STRING, at, Some(Literal::String(text)))), None)
    } else {
        error_step(cs.len(), at, "Unterminated String")
    }
}

fn scan_number<F: FloatArith>(cs: &Vec<char>, i: usize, line: usize, floats: &F) -> (r: StepResult)
    requires
        i < cs@.len() <= isize::MAX,
        is_digit(cs@[i as int]),
    ensures
        step_is(r, number_step(cs@, i as int, line as int)),
{
    let e = digit_end(cs, i + 1);
    proof { lemma_digit_run_bound(cs@, i + 1); }
    if e < cs.len() && cs[e] == '.' && e + 1 < cs.len() && is_digit_char(cs[e + 1]) {
        let f = digit_end(cs, e + 2);
        proof { lemma_digit_run_bound(cs@, e + 2); }
        let text = substring(cs, i, f);
        let bits = floats.parse_decimal(text.as_str());
        (f, line, Some(Token::new(TokenType::FLOAT, line, text, Some(Literal::Float(bits)))), None)
    } else {
        match digits_to_int(cs, i, e) {
            Some(v) => (e, line, Some(make_token(cs, i, e, TokenType::INTEGER, line, Some(Literal::Int(v)))), None),
            None => error_step(e, line, "Integer literal out of range"),
        }
    }
}

fn scan_word(cs: &Vec<char>, i: usize, line: usize) -> (r: StepResult)
    requires
        i < cs@.len() <= isize::MAX,
    ensures
        step_is(r, word_step(cs@, i as int, line as int)),
{
    let e = word_end(cs, i + 1);
    proof { lemma_word_run_bound(cs@, i + 1); }
    match keyword_of(cs, i, e) {
        Some(k) => token_step(cs, i, e, k, line),
        None => token_step(cs, i, e, TokenType::IDENTIFIER, line),
    }
}

/// Scans the token, blank, comment or error that starts at `i`.
fn scan_step<F: FloatArith>(cs: &Vec<char>, i: usize, line: usize, floats: &F) -> (r: StepResult)
    requires
        i < cs@.len() <= isize::MAX,
        1 <= line <= i + 1,
    ensures
        step_is(r, step(cs@, i as int, line as int)),
{
    proof { lemma_step_bounds(cs@, i as int, line as int); }
    let c = cs[i];
    let has_next = i + 1 < cs.len();
    if let Some(k) = single_of(c) {
        token_step(cs, i, i + 1, k, line)
    } else if c == '!' {
        if has_next && cs[i + 1] == '=' {
            token_step(cs, i, i + 2, TokenType::BANGEQUAL, line)
        } else {
            token_step(cs, i, i + 1, TokenType::BANG, line)
        }
    } else if c == '=' {
        if has_next && cs[i + 1] == '=' {
            token_step(cs, i, i + 2, TokenType::EQUALEQUAL, line)
        } else {
            token_step(cs, i, i + 1, TokenType::EQUAL, line)
        }
    } else if c == '>' {
        if has_next && cs[i + 1] == '=' {
            token_step(cs, i, i + 2, TokenType::GREATEREQUAL, line)
        } else if has_next && cs[i + 1] == '>' {
            token_step(cs, i, i + 2, TokenType::GREATERGREATER, line)
        } else {
            token_step(cs, i, i + 1, TokenType::GREATER, line)
        }
    } else if c == '<' {
        if has_next && cs[i + 1] == '<' {
            token_step(cs, i, i + 2, TokenType::LESSLESS, line)
        } else if has_next && cs[i + 1] == '=' {
            token_step(cs, i, i + 2, TokenType::LESSEQUAL, line)
        } else {
            token_step(cs, i, i + 1, TokenType::LESS, line)
        }
    } else if c == '/' {
        if has_next && cs[i + 1] == '/' {
            let (end, _) = find_char(cs, i + 2, '\n');
            (end, line, None, None)
        } else {
            token_step(cs, i, i + 1, TokenType::SLASH, line)
        }
    } else if c == ' ' || c == '\t' || c == '\r' {
        (i + 1, line, None, None)
    } else if c == '\n' {
        (i + 1, line + 1, None, None)
    } else if c == '"' {
        scan_string(cs, i, line)
    } else if is_digit_char(c) {
        scan_number(cs, i, line, floats)
    } else if is_alpha_char(c) {
        scan_word(cs, i, line)
    } else {
        error_step(i + 1, line, "Unexpected token")
    }
}

proof fn lemma_step_not_eof(s: Seq<char>, i: int, line: int)
    requires
        0 <= i < s.len(),
    ensures
        step(s, i, line).token is Some ==> step(s, i, line).token->Some_0.kind != TokenType::EOF,
{
    let c = s[i];
    if single(c) is Some {
        assert(single(c)->Some_0 != TokenType::EOF);
    }
    let e = i + 1 + word_run(s, i + 1);
    if is_alpha(c) {
        match keyword(s.subrange(i, e)) {
            Some(k) => assert(k != TokenType::EOF),
            None => {},
        }
    }
}

proof fn lemma_scan_no_eof(s: Seq<char>, i: int, line: int)
    ensures
        forall|k: int| 0 <= k < scan(s, i, line).tokens.len() ==> (#[trigger] scan(s, i, line).tokens[k]).kind != TokenType::EOF,
    decreases s.len() - i,
{
    if 0 <= i < s.len() {
        let st = step(s, i, line);
        lemma_step_not_eof(s, i, line);
        if st.next > i && st.next <= s.len() {
            lemma_scan_no_eof(s, st.next, st.line);
            let rest = scan(s, st.next, st.line);
            assert forall|k: int| 0 <= k < scan(s, i, line).tokens.len() implies (#[trigger] scan(s, i, line).tokens[k]).kind != TokenType::EOF by {
                if st.token is Some && k == 0 {
                } else {
                    let j = if st.token is Some { k - 1 } else { k };
                    assert(scan(s, i, line).tokens[k] == rest.tokens[j]);
                }
            }
        }
    }
}

/// Every token stream ends with the end marker and holds it exactly once.
pub proof fn lemma_eof_exactly_once(s: Seq<char>)
    ensures
        lex_tokens(s).len() >= 1,
        lex_tokens(s).last().kind == TokenType::EOF,
        forall|k: int| 0 <= k < lex_tokens(s).len() - 1 ==> (#[trigger] lex_tokens(s)[k]).kind != TokenType::EOF,
{
    lemma_scan_no_eof(s, 0, 1);
    let sc = scan(s, 0, 1);
    assert forall|k: int| 0 <= k < lex_tokens(s).len() - 1 implies (#[trigger] lex_tokens(s)[k]).kind != TokenType::EOF by {
        assert(lex_tokens(s)[k] == sc.tokens[k]);
    }
}

/// The lexer over one source text.
pub struct Lexer {
    source: Vec<char>,
}

/// Whether `new_log` is `old_log` followed by the recorded forms of `diags`.
pub open spec fn records_diags(old_log: Seq<Error>, new_log: Seq<Error>, diags: Seq<Diagnostic>) -> bool {
    &&& new_log.len() == old_log.len() + diags.len()
    &&& new_log.take(old_log.len() as int) == old_log
    &&& forall|k: int| 0 <= k < diags.len() ==> error_is(#[trigger] new_log[old_log.len() + k], diags[k])
}

impl Lexer {
    /// The characters of the source.
    pub closed spec fn chars(&self) -> Seq<char> {
        self.source@
    }

    pub closed spec fn wf(&self) -> bool {
        self.source@.len() <= isize::MAX
    }

    pub fn new(source: &String) -> (r: Self)
        ensures
            r.chars() == source@,
            r.wf(),
    {
        Lexer { source: char_vec(source.as_str()) }
    }

    /// Scans the whole source: the tokens of [`lex_tokens`], ending with the
    /// one end marker, and the lexical errors of [`lex_diags`] recorded in order.
    pub fn scan_tokens<F: FloatArith>(&self, errors: &mut ErrorManager, floats: &F) -> (r: Vec<Token>)
        requires
            self.wf(),
        ensures
            r@.len() == lex_tokens(self.chars()).len(),
            forall|k: int| 0 <= k < r@.len() ==> token_is(#[trigger] r@[k], lex_tokens(self.chars())[k]),
            records_diags(old(errors).log(), final(errors).log(), lex_diags(self.chars())),
    {
        let cs = &self.source;
        let mut tokens: Vec<Token> = Vec::new();
        let mut i: usize = 0;
        let mut line: usize = 1;
        let ghost s = cs@;
        let ghost full = scan(s, 0, 1);
        let ghost mut toks: Seq<TokenModel> = Seq::empty();
        let ghost mut diags: Seq<Diagnostic> = Seq::empty();
        assert(errors.log().take(old(errors).log().len() as int) =~= old(errors).log());
        while i < cs.len()
            invariant
                s == cs@,
                s == self.chars(),
                s.len() <= isize::MAX,
                i <= s.len(),
                1 <= line <= i + 1,
                full == scan(s, 0, 1),
                full.tokens == toks + scan(s, i as int, line as int).tokens,
                full.diags == diags + scan(s, i as int, line as int).diags,
                full.line == scan(s, i as int, line as int).line,
                tokens@.len() == toks.len(),
                forall|k: int| 0 <= k < toks.len() ==> token_is(#[trigger] tokens@[k], toks[k]),
                records_diags(old(errors).log(), errors.log(), diags),
            decreases s.len() - i,
        {
            let (next, nline, tok, err) = scan_step(cs, i, line, floats);
            let ghost st = step(s, i as int, line as int);
            proof {
                lemma_step_bounds(s, i as int, line as int);
                let rest = scan(s, next as int, nline as int);
                assert(toks + scan(s, i as int, line as int).tokens =~= (toks + opt_seq(st.token)) + rest.tokens);
                assert(diags + scan(s, i as int, line as int).diags =~= (diags + opt_seq(st.diag)) + rest.diags);
                toks = toks + opt_seq(st.token);
                diags = diags + opt_seq(st.diag);
            }
            match tok {
                Some(t) => {
                    tokens.push(t);
                },
                None => {},
            }
            let ghost before = errors.log();
            match err {
                Some(e) => {
                    errors.add_error(e.line, e.message, e.why);
                    proof {
                        assert(errors.log().take(old(errors).log().len() as int)
                            =~= before.take(old(errors).log().len() as int));
                        let n = old(errors).log().len();
                        assert forall|k: int| 0 <= k < diags.len() implies error_is(#[trigger] errors.log()[n + k], diags[k]) by {
                            if k < diags.len() - 1 {
                                assert(errors.log()[n + k] == before[n + k]);
                            }
                        }
                    }
                },
                None => {},
            }
            i = next;
            line = nline;
        }
        let eof = Token::new(TokenType::EOF, line, String::new(), None);
        tokens.push(eof);
        proof {
            assert(full.tokens =~= toks);
            assert(tokens@[toks.len() as int] == eof);
        }
        tokens
    }
}

} // verus!
