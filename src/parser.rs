//! The parser: recursive descent with one level per precedence, lowest first.
use vstd::prelude::*;
use crate::error::{Error, ErrorManager};
use crate::expr::{same_operator, same_shape, Expr};
use crate::literal::{alike, Literal};
use crate::text::{push_str, string_from};
use crate::token::{Token, TokenType};

verus! {

/// A parse that succeeded: the tree and how many tokens it took; or the
/// position of the offending token and the message.
pub type Parsed = Result<(Expr, nat), (int, Seq<char>)>;

/// The precedence levels, lowest first.
pub const BLOCK: u32 = 9;
pub const TERNARY: u32 = 8;
pub const UNARY: u32 = 0;

/// Whether `k` is an operator of the binary level `level`:
/// `,` (9), `!= ==` (7), `> >= < <=` (6), `& | ^` (5), `<< >>` (4),
/// `+ -` (3), `/ *` (2), `%` (1).
pub open spec fn level_op(level: nat, k: TokenType) -> bool {
    if level == 9 {
        k == TokenType::COMMA
    } else if level == 7 {
        k == TokenType::BANGEQUAL || k == TokenType::EQUALEQUAL
    } else if level == 6 {
        k == TokenType::GREATER || k == TokenType::GREATEREQUAL || k == TokenType::LESS
            || k == TokenType::LESSEQUAL
    } else if level == 5 {
        k == TokenType::AMPERSAND || k == TokenType::PIPE || k == TokenType::XOR
    } else if level == 4 {
        k == TokenType::LESSLESS || k == TokenType::GREATERGREATER
    } else if level == 3 {
        k == TokenType::PLUS || k == TokenType::MINUS
    } else if level == 2 {
        k == TokenType::SLASH || k == TokenType::STAR
    } else if level == 1 {
        k == TokenType::MODULO
    } else {
        false
    }
}

pub open spec fn kind_at(t: Seq<Token>, p: int) -> TokenType {
    t[p].token_type
}

/// The value a literal token stands for.
pub open spec fn literal_of(tok: Token) -> Literal {
    match tok.literal {
        Some(v) => v,
        None => Literal::Null,
    }
}

/// The expression of precedence `level` or higher at position `p` of `t`.
pub open spec fn parse_at(t: Seq<Token>, p: int, level: nat) -> Parsed
    decreases t.len() - p, 2 * level + 1,
{
    if p < 0 || p >= t.len() {
        Err((p, "Expected an expression"@))
    } else if level == 0 {
        let k = kind_at(t, p);
        if k == TokenType::BANG || k == TokenType::MINUS {
            match parse_at(t, p + 1, 0) {
                Ok((x, n)) => Ok((Expr::Unary(t[p], Box::new(x)), n + 1)),
                Err(f) => Err(f),
            }
        } else if k == TokenType::TRUE {
            Ok((Expr::Literal(Literal::Bool(true)), 1))
        } else if k == TokenType::FALSE {
            Ok((Expr::Literal(Literal::Bool(false)), 1))
        } else if k == TokenType::NIL {
            Ok((Expr::Literal(Literal::Null), 1))
        } else if k == TokenType::STRING || k == TokenType::INTEGER || k == TokenType::FLOAT {
            Ok((Expr::Literal(literal_of(t[p])), 1))
        } else if k == TokenType::LEFTPAREN {
            match parse_at(t, p + 1, 9) {
                Ok((x, n)) => if 0 <= p + 1 + n < t.len() && kind_at(t, p + 1 + n) == TokenType::RIGHTPAREN {
                    Ok((Expr::Grouping(Box::new(x)), n + 2))
                } else {
                    Err((p + 1 + n, "Expected ')' after expression"@))
                },
                Err(f) => Err(f),
            }
        } else {
            Err((p, "Expected an expression"@))
        }
    } else if level == 8 {
        match parse_at(t, p, 7) {
            Err(f) => Err(f),
            Ok((c, n1)) => {
                let q = p + n1;
                if 0 <= q < t.len() && kind_at(t, q) == TokenType::QUESTION {
                    match parse_at(t, q + 1, 8) {
                        Err(f) => Err(f),
                        Ok((th, n2)) => {
                            let q2 = q + 1 + n2;
                            if 0 <= q2 < t.len() && kind_at(t, q2) == TokenType::COLON {
                                match parse_at(t, q2 + 1, 8) {
                                    Err(f) => Err(f),
                                    Ok((el, n3)) => Ok((
                                        Expr::Ternary(Box::new(c), Box::new(th), Box::new(el)),
                                        n1 + 1 + n2 + 1 + n3,
                                    )),
                                }
                            } else {
                                Err((q2, "Expected ':' in ternay operation"@))
                            }
                        },
                    }
                } else {
                    Ok((c, n1))
                }
            },
        }
    } else {
        match parse_at(t, p, (level - 1) as nat) {
            Err(f) => Err(f),
            // The operand never runs past the stream; the test makes that
            // evident to the termination check.
            Ok((l, n)) => if p + n < t.len() {
                match fold_at(t, l, p + n, level) {
                    Err(f) => Err(f),
                    Ok((e, m)) => Ok((e, n + m)),
                }
            } else {
                Ok((l, n))
            },
        }
    }
}

/// The left fold of a binary level: while an operator of `level` stands at
/// `p`, the next operand is joined to `left`.
pub open spec fn fold_at(t: Seq<Token>, left: Expr, p: int, level: nat) -> Parsed
    decreases t.len() - p, 2 * level,
{
    if 0 <= p < t.len() && level >= 1 && level_op(level, kind_at(t, p)) {
        match parse_at(t, p + 1, (level - 1) as nat) {
            Err(f) => Err(f),
            Ok((r, n)) => if p + 1 + n < t.len() {
                match fold_at(t, Expr::Binary(Box::new(left), t[p], Box::new(r)), p + 1 + n, level) {
                    Err(f) => Err(f),
                    Ok((e, m)) => Ok((e, 1 + n + m)),
                }
            } else {
                Ok((Expr::Binary(Box::new(left), t[p], Box::new(r)), 1 + n))
            },
        }
    } else {
        Ok((left, 0))
    }
}

/// The whole expression of `t`.
pub open spec fn parse_spec(t: Seq<Token>) -> Parsed {
    parse_at(t, 0, 9)
}

/// A token stream the parser accepts: it ends with the end marker.
pub open spec fn stream_ok(t: Seq<Token>) -> bool {
    t.len() > 0 && t.last().token_type == TokenType::EOF
}

/// Where a syntax error is reported: `at end` on the end marker, else
/// `at '<lexeme>'`.
pub open spec fn context_of(tok: Token) -> Seq<char> {
    if tok.token_type == TokenType::EOF {
        "at end"@
    } else {
        "at '"@ + tok.lexeme@ + "'"@
    }
}

/// Whether `new_log` is `old_log` with the syntax error at token `q` appended.
pub open spec fn records_syntax(t: Seq<Token>, old_log: Seq<Error>, new_log: Seq<Error>, q: int, m: Seq<char>) -> bool {
    &&& new_log.len() == old_log.len() + 1
    &&& new_log.take(old_log.len() as int) == old_log
    &&& new_log.last().line == t[q].line
    &&& new_log.last().message@ == m
    &&& new_log.last().why@ == context_of(t[q])
}

/// Whether an exec parse matches the parse `spec`, and the log changed as it says.
pub open spec fn parse_matches(
    t: Seq<Token>,
    r: Result<(Box<Expr>, usize), ()>,
    spec: Parsed,
    old_log: Seq<Error>,
    new_log: Seq<Error>,
) -> bool {
    match spec {
        Ok((e, n)) => r is Ok && *r->Ok_0.0 == e && r->Ok_0.1 as int == n && new_log == old_log,
        Err((q, m)) => r is Err && 0 <= q < t.len() && records_syntax(t, old_log, new_log, q, m),
    }
}

/// Whether two optional literal values are alike.
pub open spec fn literal_alike(a: Option<Literal>, b: Option<Literal>) -> bool {
    match a {
        Some(x) => match b {
            Some(y) => alike(x@, y@),
            None => false,
        },
        None => b is None,
    }
}

/// Whether two tokens are alike: kind, line, text and value, up to the bits of doubles.
pub open spec fn same_token(a: Token, b: Token) -> bool {
    same_operator(a, b) && literal_alike(a.literal, b.literal)
}

pub open spec fn same_stream(t1: Seq<Token>, t2: Seq<Token>) -> bool {
    &&& t1.len() == t2.len()
    &&& forall|k: int| 0 <= k < t1.len() ==> same_token(#[trigger] t1[k], t2[k])
}

/// Whether two parses agree: the same error, or trees of the same shape that
/// took as many tokens.
pub open spec fn parsed_alike(a: Parsed, b: Parsed) -> bool {
    match a {
        Ok((e1, n1)) => match b {
            Ok((e2, n2)) => n1 == n2 && same_shape(e1, e2),
            Err(_) => false,
        },
        Err(f1) => b == Err::<(Expr, nat), (int, Seq<char>)>(f1),
    }
}

/// Alike token streams parse alike.
pub proof fn lemma_parse_alike(t1: Seq<Token>, t2: Seq<Token>, p: int, level: nat)
    requires
        same_stream(t1, t2),
    ensures
        parsed_alike(parse_at(t1, p, level), parse_at(t2, p, level)),
    decreases t1.len() - p, 2 * level + 1,
{
    if p < 0 || p >= t1.len() {
    } else if level == 0 {
        assert(same_token(t1[p], t2[p]));
        let k = kind_at(t1, p);
        if k == TokenType::BANG || k == TokenType::MINUS {
            lemma_parse_alike(t1, t2, p + 1, 0);
        } else if k == TokenType::LEFTPAREN {
            lemma_parse_alike(t1, t2, p + 1, 9);
            match parse_at(t1, p + 1, 9) {
                Ok((_, n)) => if 0 <= p + 1 + n < t1.len() {
                    assert(same_token(t1[p + 1 + n], t2[p + 1 + n]));
                },
                Err(_) => {},
            }
        }
    } else if level == 8 {
        lemma_parse_alike(t1, t2, p, 7);
        match parse_at(t1, p, 7) {
            Err(_) => {},
            Ok((_, n1)) => {
                let q = p + n1;
                if 0 <= q < t1.len() {
                    assert(same_token(t1[q], t2[q]));
                }
                if 0 <= q < t1.len() && kind_at(t1, q) == TokenType::QUESTION {
                    lemma_parse_alike(t1, t2, q + 1, 8);
                    match parse_at(t1, q + 1, 8) {
                        Err(_) => {},
                        Ok((_, n2)) => {
                            let q2 = q + 1 + n2;
                            if 0 <= q2 < t1.len() {
                                assert(same_token(t1[q2], t2[q2]));
                            }
                            if 0 <= q2 < t1.len() && kind_at(t1, q2) == TokenType::COLON {
                                lemma_parse_alike(t1, t2, q2 + 1, 8);
                            }
                        },
                    }
                }
            },
        }
    } else {
        lemma_parse_alike(t1, t2, p, (level - 1) as nat);
        match parse_at(t1, p, (level - 1) as nat) {
            Err(_) => {},
            Ok((l1, n)) => match parse_at(t2, p, (level - 1) as nat) {
                Ok((l2, _)) => if p + n < t1.len() {
                    lemma_fold_alike(t1, t2, l1, l2, p + n, level);
                },
                Err(_) => {},
            },
        }
    }
}

/// Alike token streams fold alike from alike left operands.
pub proof fn lemma_fold_alike(t1: Seq<Token>, t2: Seq<Token>, l1: Expr, l2: Expr, p: int, level: nat)
    requires
        same_stream(t1, t2),
        same_shape(l1, l2),
    ensures
        parsed_alike(fold_at(t1, l1, p, level), fold_at(t2, l2, p, level)),
    decreases t1.len() - p, 2 * level,
{
    if 0 <= p < t1.len() && level >= 1 {
        assert(same_token(t1[p], t2[p]));
    }
    if 0 <= p < t1.len() && level >= 1 && level_op(level, kind_at(t1, p)) {
        lemma_parse_alike(t1, t2, p + 1, (level - 1) as nat);
        match parse_at(t1, p + 1, (level - 1) as nat) {
            Err(_) => {},
            Ok((r1, n)) => match parse_at(t2, p + 1, (level - 1) as nat) {
                Ok((r2, _)) => if p + 1 + n < t1.len() {
                    let j1 = Expr::Binary(Box::new(l1), t1[p], Box::new(r1));
                    let j2 = Expr::Binary(Box::new(l2), t2[p], Box::new(r2));
                    assert(same_shape(j1, j2));
                    lemma_fold_alike(t1, t2, j1, j2, p + 1 + n, level);
                },
                Err(_) => {},
            },
        }
    }
}

fn level_op_exec(level: u32, k: TokenType) -> (r: bool)
    ensures
        r == level_op(level as nat, k),
{
    if level == 9 {
        k == TokenType::COMMA
    } else if level == 7 {
        k == TokenType::BANGEQUAL || k == TokenType::EQUALEQUAL
    } else if level == 6 {
        k == TokenType::GREATER || k == TokenType::GREATEREQUAL || k == TokenType::LESS
            || k == TokenType::LESSEQUAL
    } else if level == 5 {
        k == TokenType::AMPERSAND || k == TokenType::PIPE || k == TokenType::XOR
    } else if level == 4 {
        k == TokenType::LESSLESS || k == TokenType::GREATERGREATER
    } else if level == 3 {
        k == TokenType::PLUS || k == TokenType::MINUS
    } else if level == 2 {
        k == TokenType::SLASH || k == TokenType::STAR
    } else if level == 1 {
        k == TokenType::MODULO
    } else {
        false
    }
}

/// Records the syntax error `message` at the token at `q`.
fn report(t: &Vec<Token>, q: usize, message: &str, errors: &mut ErrorManager)
    requires
        q < t@.len(),
    ensures
        records_syntax(t@, old(errors).log(), final(errors).log(), q as int, message@),
{
    let tok = &t[q];
    let mut why: Vec<char> = Vec::new();
    if tok.token_type == TokenType::EOF {
        push_str(&mut why, "at end");
    } else {
        push_str(&mut why, "at '");
        push_str(&mut why, tok.lexeme.as_str());
        push_str(&mut why, "'");
    }
    assert(why@ =~= context_of(t@[q as int]));
    errors.add_error(tok.line, message.to_string(), string_from(why.as_slice()));
    assert(errors.log().take(old(errors).log().len() as int) =~= old(errors).log());
}

fn parse_level(t: &Vec<Token>, p: usize, level: u32, errors: &mut ErrorManager) -> (r: Result<(Box<Expr>, usize), ()>)
    requires
        stream_ok(t@),
        p < t@.len(),
        level <= 9,
    ensures
        parse_matches(t@, r, parse_at(t@, p as int, level as nat), old(errors).log(), final(errors).log()),
        r is Ok ==> p + r->Ok_0.1 < t@.len(),
    decreases t@.len() - p, 2 * level + 1,
{
    // The length is a `usize`, which bounds every position computed below.
    let len = t.len();
    assert(p < len);
    if level == 0 {
        let k = t[p].token_type;
        if k == TokenType::BANG || k == TokenType::MINUS {
            let x = parse_level(t, p + 1, 0, errors)?;
            Ok((Box::new(Expr::Unary(t[p].duplicate(), x.0)), x.1 + 1))
        } else if k == TokenType::TRUE {
            Ok((Box::new(Expr::Literal(Literal::Bool(true))), 1))
        } else if k == TokenType::FALSE {
            Ok((Box::new(Expr::Literal(Literal::Bool(false))), 1))
        } else if k == TokenType::NIL {
            Ok((Box::new(Expr::Literal(Literal::Null)), 1))
        } else if k == TokenType::STRING || k == TokenType::INTEGER || k == TokenType::FLOAT {
            let v = match &t[p].literal {
                Some(v) => v.duplicate(),
                None => Literal::Null,
            };
            Ok((Box::new(Expr::Literal(v)), 1))
        } else if k == TokenType::LEFTPAREN {
            let x = parse_level(t, p + 1, BLOCK, errors)?;
            let q = p + 1 + x.1;
            if t[q].token_type == TokenType::RIGHTPAREN {
                Ok((Box::new(Expr::Grouping(x.0)), x.1 + 2))
            } else {
                report(t, q, "Expected ')' after expression", errors);
                Err(())
            }
        } else {
            report(t, p, "Expected an expression", errors);
            Err(())
        }
    } else if level == TERNARY {
        let c = parse_level(t, p, 7, errors)?;
        let q = p + c.1;
        if t[q].token_type == TokenType::QUESTION {
            let th = parse_level(t, q + 1, TERNARY, errors)?;
            let q2 = q + 1 + th.1;
            if t[q2].token_type == TokenType::COLON {
                let el = parse_level(t, q2 + 1, TERNARY, errors)?;
                Ok((Box::new(Expr::Ternary(c.0, th.0, el.0)), c.1 + 1 + th.1 + 1 + el.1))
            } else {
                report(t, q2, "Expected ':' in ternay operation", errors);
                Err(())
            }
        } else {
            Ok(c)
        }
    } else {
        let l = parse_level(t, p, level - 1, errors)?;
        let f = fold_level(t, l.0, p + l.1, level, errors)?;
        Ok((f.0, l.1 + f.1))
    }
}

fn fold_level(t: &Vec<Token>, left: Box<Expr>, p: usize, level: u32, errors: &mut ErrorManager) -> (r: Result<(Box<Expr>, usize), ()>)
    requires
        stream_ok(t@),
        p < t@.len(),
        1 <= level <= 9,
    ensures
        parse_matches(t@, r, fold_at(t@, *left, p as int, level as nat), old(errors).log(), final(errors).log()),
        r is Ok ==> p + r->Ok_0.1 < t@.len(),
    decreases t@.len() - p, 2 * level,
{
    // The length is a `usize`, which bounds every position computed below.
    let len = t.len();
    assert(p < len);
    if level_op_exec(level, t[p].token_type) {
        let r = parse_level(t, p + 1, level - 1, errors)?;
        let joined = Box::new(Expr::Binary(left, t[p].duplicate(), r.0));
        let f = fold_level(t, joined, p + 1 + r.1, level, errors)?;
        Ok((f.0, 1 + r.1 + f.1))
    } else {
        Ok((left, 0))
    }
}

/// Whether a token of kind `k` begins a statement.
pub open spec fn starts_statement(k: TokenType) -> bool {
    k == TokenType::CLASS || k == TokenType::IF || k == TokenType::FUN || k == TokenType::VAR
        || k == TokenType::FOR || k == TokenType::WHILE || k == TokenType::PRINT || k == TokenType::RETURN
}

/// Whether recovery stops at position `i`: at the end marker, after a `;`, or
/// before a token that begins a statement.
pub open spec fn sync_stop(t: Seq<Token>, i: int) -> bool {
    kind_at(t, i) == TokenType::EOF || (i >= 1 && kind_at(t, i - 1) == TokenType::SEMICOLON)
        || starts_statement(kind_at(t, i))
}

fn starts_statement_exec(k: TokenType) -> (r: bool)
    ensures
        r == starts_statement(k),
{
    k == TokenType::CLASS || k == TokenType::IF || k == TokenType::FUN || k == TokenType::VAR
        || k == TokenType::FOR || k == TokenType::WHILE || k == TokenType::PRINT || k == TokenType::RETURN
}

/// The parser over one token stream.
pub struct Parser {
    tokens: Vec<Token>,
}

impl Parser {
    /// The tokens being parsed.
    pub closed spec fn stream(&self) -> Seq<Token> {
        self.tokens@
    }

    pub fn new(tokens: Vec<Token>) -> (r: Self)
        ensures
            r.stream() == tokens@,
    {
        Parser { tokens }
    }

    /// Parses one expression from the start of the stream. On success the tree
    /// of [`parse_spec`] comes back and nothing is recorded; on failure the
    /// one syntax error comes back as recorded, and no tree.
    pub fn parse(&self, errors: &mut ErrorManager) -> (r: Option<Box<Expr>>)
        requires
            stream_ok(self.stream()),
        ensures
            match parse_spec(self.stream()) {
                Ok((e, _)) => r is Some && *r->Some_0 == e && final(errors).log() == old(errors).log(),
                Err((q, m)) => r is None && 0 <= q < self.stream().len()
                    && records_syntax(self.stream(), old(errors).log(), final(errors).log(), q, m),
            },
    {
        match parse_level(&self.tokens, 0, BLOCK, errors) {
            Ok((e, _)) => Some(e),
            Err(()) => None,
        }
    }

    /// Error recovery: from the token at `p`, steps past it (unless it is the
    /// end marker) and on to the first position where recovery stops.
    pub fn synchronize(&self, p: usize) -> (r: usize)
        requires
            stream_ok(self.stream()),
            p < self.stream().len(),
        ensures
            ({
                let start = if kind_at(self.stream(), p as int) == TokenType::EOF { p as int } else { p + 1 };
                &&& start <= r < self.stream().len()
                &&& sync_stop(self.stream(), r as int)
                &&& forall|i: int| start <= i < r ==> !sync_stop(self.stream(), i)
            }),
    {
        let t = &self.tokens;
        let len = t.len();
        let mut i: usize = if t[p].token_type == TokenType::EOF { p } else { p + 1 };
        let ghost start = i as int;
        while t[i].token_type != TokenType::EOF
            && !(i >= 1 && t[i - 1].token_type == TokenType::SEMICOLON)
            && !starts_statement_exec(t[i].token_type)
            invariant
                t@ == self.stream(),
                stream_ok(t@),
                len == t@.len(),
                start <= i < len,
                forall|j: int| start <= j < i ==> !sync_stop(t@, j),
            decreases len - i,
        {
            i = i + 1;
        }
        i
    }
}

} // verus!
