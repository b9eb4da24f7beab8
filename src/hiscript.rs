//! The whole pipeline for one source text: scan, parse, evaluate.
use vstd::prelude::*;
use crate::error::{report_text, Error, ErrorManager};
use crate::expr::float_free;
use crate::interpreter::{eval, evaluates, lemma_eval_same_shape, records_fault, Fault, Interpreter};
use crate::lexer::{error_is, lex_diags, lex_tokens, records_diags, token_is, Lexer};
use crate::literal::{display_spec, FloatArith, Literal, Value};
use crate::ops::display;
use crate::parser::{lemma_parse_alike, parse_spec, parsed_alike, records_syntax, same_stream, same_token, Parser};
use crate::token::Token;

verus! {

/// What one run leaves: the value, if one was produced, and the log.
pub struct RunResult {
    pub value: Option<Literal>,
    pub errors: ErrorManager,
}

/// Whether `toks` is a token stream that the lexer produces for `s`.
pub open spec fn scanned_from(toks: Seq<Token>, s: Seq<char>) -> bool {
    &&& toks.len() == lex_tokens(s).len()
    &&& forall|k: int| 0 <= k < toks.len() ==> token_is(#[trigger] toks[k], lex_tokens(s)[k])
}

/// Whether `r` is the outcome of the pipeline on `s`, for the scanned tokens `toks`:
/// the lexical errors first; then either the one syntax error, or the
/// evaluation, whose value or runtime error is an outcome of [`evaluates`],
/// and exactly that of [`eval`] wherever no double takes part.
pub open spec fn run_outcome(s: Seq<char>, toks: Seq<Token>, r: RunResult) -> bool {
    let lexed = lex_diags(s);
    let n = lexed.len();
    let log = r.errors.log();
    &&& log.len() >= n
    &&& records_diags(Seq::empty(), log.take(n as int), lexed)
    &&& match parse_spec(toks) {
        Err((q, m)) => r.value is None && 0 <= q < toks.len()
            && records_syntax(toks, log.take(n as int), log, q, m),
        Ok((e, _)) => {
            &&& exists|o: Result<Value, Fault>| #[trigger] evaluates(e, o) && match o {
                Ok(v) => r.value is Some && r.value->Some_0@ == v && log.len() == n,
                Err(f) => r.value is None && records_fault(log.take(n as int), log, f),
            }
            &&& float_free(e) ==> match eval(e) {
                Ok(v) => r.value is Some && r.value->Some_0@ == v,
                Err(f) => r.value is None && records_fault(log.take(n as int), log, f),
            }
        },
    }
}

/// Whether two logs hold the same errors: line, message and context.
pub open spec fn logs_alike(a: Seq<Error>, b: Seq<Error>) -> bool {
    &&& a.len() == b.len()
    &&& forall|k: int| 0 <= k < a.len() ==> {
        &&& (#[trigger] a[k]).line == b[k].line
        &&& a[k].message@ == b[k].message@
        &&& a[k].why@ == b[k].why@
    }
}

/// Two runs on one source, each with fresh components, agree: the same tokens
/// (up to the bits of doubles), trees of the same shape, the same errors, and,
/// where no double takes part, the same value.
pub proof fn lemma_rerun_agrees(s: Seq<char>, t1: Seq<Token>, r1: RunResult, t2: Seq<Token>, r2: RunResult)
    requires
        scanned_from(t1, s),
        run_outcome(s, t1, r1),
        scanned_from(t2, s),
        run_outcome(s, t2, r2),
    ensures
        same_stream(t1, t2),
        parsed_alike(parse_spec(t1), parse_spec(t2)),
        parse_spec(t1) is Err ==> logs_alike(r1.errors.log(), r2.errors.log()) && r1.value is None && r2.value is None,
        parse_spec(t1) is Ok && float_free(parse_spec(t1)->Ok_0.0) ==> {
            &&& logs_alike(r1.errors.log(), r2.errors.log())
            &&& r1.value is Some <==> r2.value is Some
            &&& r1.value is Some ==> r1.value->Some_0@ == r2.value->Some_0@
        },
{
    assert forall|k: int| 0 <= k < t1.len() implies same_token(#[trigger] t1[k], t2[k]) by {
        assert(token_is(t1[k], lex_tokens(s)[k]));
        assert(token_is(t2[k], lex_tokens(s)[k]));
    }
    lemma_parse_alike(t1, t2, 0, 9);
    let lexed = lex_diags(s);
    let n = lexed.len() as int;
    let log1 = r1.errors.log();
    let log2 = r2.errors.log();
    assert(forall|k: int| 0 <= k < n ==> #[trigger] log1.take(n)[k] == log1[k]);
    assert(forall|k: int| 0 <= k < n ==> #[trigger] log2.take(n)[k] == log2[k]);
    assert forall|k: int| 0 <= k < n implies {
        &&& (#[trigger] log1[k]).line == log2[k].line
        &&& log1[k].message@ == log2[k].message@
        &&& log1[k].why@ == log2[k].why@
    } by {
        assert(error_is(log1.take(n)[0 + k], lexed[k]));
        assert(error_is(log2.take(n)[0 + k], lexed[k]));
    }
    match parse_spec(t1) {
        Err((q, m)) => {
            assert(same_token(t1[q], t2[q]));
            assert(log1[n] == log1.last());
            assert(log2[n] == log2.last());
        },
        Ok((e1, _)) => {
            if float_free(e1) {
                match parse_spec(t2) {
                    Ok((e2, _)) => {
                        lemma_eval_same_shape(e1, e2);
                        match eval(e1) {
                            Ok(_) => {},
                            Err(f) => {
                                assert(log1[n] == log1.last());
                                assert(log2[n] == log2.last());
                            },
                        }
                    },
                    Err(_) => {},
                }
            }
        },
    }
}

/// The interpreter of the language, with the double arithmetic it delegates.
pub struct HiScript<F: FloatArith> {
    pub floats: F,
}

impl<F: FloatArith> HiScript<F> {
    pub fn new(floats: F) -> (r: Self)
        ensures
            r.floats == floats,
    {
        HiScript { floats }
    }

    /// Runs the pipeline on `source` with a fresh log.
    pub fn execute(&self, source: &String) -> (r: RunResult)
        ensures
            exists|toks: Seq<Token>| scanned_from(toks, source@) && run_outcome(source@, toks, r),
    {
        let mut errors = ErrorManager::new();
        let lexer = Lexer::new(source);
        let tokens = lexer.scan_tokens(&mut errors, &self.floats);
        let ghost toks = tokens@;
        let ghost n = lex_diags(source@).len();
        let ghost lexed_log = errors.log();
        assert(lexed_log.take(n as int) =~= lexed_log);
        assert(Seq::<Error>::empty().take(0) =~= Seq::<Error>::empty());
        assert(toks.last().token_type == crate::token::TokenType::EOF) by {
            assert(token_is(toks[toks.len() - 1], lex_tokens(source@)[toks.len() - 1]));
        }
        let parser = Parser::new(tokens);
        let parsed = parser.parse(&mut errors);
        let value = match parsed {
            Some(expr) => {
                let interpreter = Interpreter::new(&self.floats);
                let v = interpreter.interpret(expr, &mut errors);
                v
            },
            None => None,
        };
        let r = RunResult { value, errors };
        proof {
            assert(r.errors.log().take(n as int) =~= lexed_log);
        }
        assert(scanned_from(toks, source@));
        r
    }

    /// Runs the pipeline on `source` and gives the lines it prints: the value
    /// in its natural text, if one was produced, then one line per error.
    pub fn run(&self, source: String) -> (lines: Vec<String>)
        ensures
            exists|r: RunResult| {
                &&& exists|toks: Seq<Token>| scanned_from(toks, source@) && run_outcome(source@, toks, r)
                &&& lines@.len() == (if r.value is Some { 1int } else { 0int }) + r.errors.log().len()
                &&& r.value is Some && !(r.value->Some_0@ is Float) ==> lines@[0]@ == display_spec(r.value->Some_0@, Seq::empty())
                &&& forall|k: int| 0 <= k < r.errors.log().len() ==>
                    lines@[(if r.value is Some { 1int } else { 0int }) + k]@ == report_text(#[trigger] r.errors.log()[k])
            },
    {
        let r = self.execute(&source);
        let mut lines: Vec<String> = Vec::new();
        match &r.value {
            Some(v) => {
                lines.push(display(v, &self.floats));
            },
            None => {},
        }
        let reports = r.errors.report_lines();
        let mut i: usize = 0;
        let ghost start = lines@.len();
        while i < reports.len()
            invariant
                i <= reports@.len(),
                lines@.len() == start + i,
                start == (if r.value is Some { 1int } else { 0int }),
                r.value is Some && !(r.value->Some_0@ is Float) ==> lines@[0]@ == display_spec(r.value->Some_0@, Seq::empty()),
                reports@.len() == r.errors.log().len(),
                forall|k: int| 0 <= k < reports@.len() ==> #[trigger] reports@[k]@ == report_text(r.errors.log()[k]),
                forall|k: int| 0 <= k < i ==> lines@[start + k]@ == report_text(#[trigger] r.errors.log()[k]),
            decreases reports@.len() - i,
        {
            lines.push(reports[i].clone());
            i = i + 1;
        }
        lines
    }
}

} // verus!
