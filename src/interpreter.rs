//! The evaluator: walks an expression tree bottom-up into a value.
use vstd::prelude::*;
use crate::error::{Error, ErrorManager, ErrorMessage};
use crate::expr::{float_free, same_shape, Expr};
use crate::literal::{binary_spec, float_binary_shape, truthy, unary_spec, FloatArith, Literal, Value};
use crate::token::{Token, TokenType};
use crate::ops::{apply_binary, apply_unary};

verus! {

/// A runtime failure: the operator's line and the message.
pub type Fault = (usize, Seq<char>);

/// Attaches the operator's line to the outcome of an operator.
pub open spec fn at_line(line: usize, r: Result<Value, Seq<char>>) -> Result<Value, Fault> {
    match r {
        Ok(v) => Ok(v),
        Err(m) => Err((line, m)),
    }
}

/// The value of `e`: operands left then right, the first failure stops the
/// walk, and a ternary evaluates only the branch its condition selects.
pub open spec fn eval(e: Expr) -> Result<Value, Fault>
    decreases e,
{
    match e {
        Expr::Literal(v) => Ok(v@),
        Expr::Grouping(x) => eval(*x),
        Expr::Unary(t, x) => match eval(*x) {
            Err(f) => Err(f),
            Ok(v) => at_line(t.line, unary_spec(t.token_type, v)),
        },
        Expr::Binary(l, t, r) => match eval(*l) {
            Err(f) => Err(f),
            Ok(a) => match eval(*r) {
                Err(f) => Err(f),
                Ok(b) => at_line(t.line, binary_spec(t.token_type, a, b)),
            },
        },
        Expr::Ternary(c, th, el) => match eval(*c) {
            Err(f) => Err(f),
            Ok(v) => if truthy(v) { eval(*th) } else { eval(*el) },
        },
    }
}

/// What may come of the binary operator `op` at `line` on `a` and `b`: the
/// outcome [`binary_spec`] gives where neither is a double; where one is, an
/// outcome of the shape [`float_binary_shape`] gives (the double arithmetic is
/// the host's, the dispatch and the errors are not).
pub open spec fn binary_step(op: TokenType, line: usize, a: Value, b: Value, out: Result<Value, Fault>) -> bool {
    if !(a is Float) && !(b is Float) {
        out == at_line(line, binary_spec(op, a, b))
    } else {
        exists|o: Result<Value, Seq<char>>| #[trigger] float_binary_shape(op, a, b, o) && out == at_line(line, o)
    }
}

/// A record of one evaluation: the outcome of each node that was evaluated.
pub enum Trace {
    /// A literal.
    Leaf(Result<Value, Fault>),
    /// A unary node: its operand, and its own outcome.
    Unary(Box<Trace>, Result<Value, Fault>),
    /// A binary node: its left operand, its right operand (if reached), and its own outcome.
    Binary(Box<Trace>, Box<Trace>, Result<Value, Fault>),
    /// A ternary: its condition, the branch taken (if reached), and its own outcome.
    Ternary(Box<Trace>, Box<Trace>, Result<Value, Fault>),
}

pub open spec fn trace_outcome(tr: Trace) -> Result<Value, Fault> {
    match tr {
        Trace::Leaf(o) => o,
        Trace::Unary(_, o) => o,
        Trace::Binary(_, _, o) => o,
        Trace::Ternary(_, _, o) => o,
    }
}

/// Whether `tr` records an evaluation of `e`: it follows [`eval`] node by
/// node, except that a binary node on a double only fixes the shape of its
/// outcome (see [`binary_step`]).
pub open spec fn traces(e: Expr, tr: Trace) -> bool
    decreases e,
{
    match e {
        Expr::Literal(v) => tr == Trace::Leaf(Ok(v@)),
        Expr::Grouping(x) => traces(*x, tr),
        Expr::Unary(t, x) => match tr {
            Trace::Unary(k, out) => traces(*x, *k) && match trace_outcome(*k) {
                Err(f) => out == Err::<Value, Fault>(f),
                Ok(v) => out == at_line(t.line, unary_spec(t.token_type, v)),
            },
            _ => false,
        },
        Expr::Binary(l, t, r) => match tr {
            Trace::Binary(kl, kr, out) => traces(*l, *kl) && match trace_outcome(*kl) {
                Err(f) => out == Err::<Value, Fault>(f),
                Ok(a) => traces(*r, *kr) && match trace_outcome(*kr) {
                    Err(f) => out == Err::<Value, Fault>(f),
                    Ok(b) => binary_step(t.token_type, t.line, a, b, out),
                },
            },
            _ => false,
        },
        Expr::Ternary(c, th, el) => match tr {
            Trace::Ternary(kc, kb, out) => traces(*c, *kc) && match trace_outcome(*kc) {
                Err(f) => out == Err::<Value, Fault>(f),
                Ok(v) => if truthy(v) {
                    traces(*th, *kb) && out == trace_outcome(*kb)
                } else {
                    traces(*el, *kb) && out == trace_outcome(*kb)
                },
            },
            _ => false,
        },
    }
}

/// Whether `out` is an outcome of evaluating `e`, for any tree.
pub open spec fn evaluates(e: Expr, out: Result<Value, Fault>) -> bool {
    exists|tr: Trace| #[trigger] traces(e, tr) && trace_outcome(tr) == out
}

/// A ternary yields the branch its condition selects, whatever the other
/// branch is: the other branch is never evaluated, so nothing it would raise
/// can show.
pub proof fn lemma_ternary_selects(c: Expr, th: Expr, el: Expr)
    ensures
        eval(c) is Err ==> eval(Expr::Ternary(Box::new(c), Box::new(th), Box::new(el))) == eval(c),
        eval(c) is Ok && truthy(eval(c)->Ok_0) ==> eval(Expr::Ternary(Box::new(c), Box::new(th), Box::new(el))) == eval(th),
        eval(c) is Ok && !truthy(eval(c)->Ok_0) ==> eval(Expr::Ternary(Box::new(c), Box::new(th), Box::new(el))) == eval(el),
{
}

/// Trees of the same shape with no double in them have the same value.
pub proof fn lemma_eval_same_shape(a: Expr, b: Expr)
    requires
        same_shape(a, b),
        float_free(a),
    ensures
        float_free(b),
        eval(a) == eval(b),
    decreases a,
{
    match a {
        Expr::Ternary(c1, t1, e1) => match b {
            Expr::Ternary(c2, t2, e2) => {
                lemma_eval_same_shape(*c1, *c2);
                lemma_eval_same_shape(*t1, *t2);
                lemma_eval_same_shape(*e1, *e2);
            },
            _ => {},
        },
        Expr::Binary(l1, _, r1) => match b {
            Expr::Binary(l2, _, r2) => {
                lemma_eval_same_shape(*l1, *l2);
                lemma_eval_same_shape(*r1, *r2);
            },
            _ => {},
        },
        Expr::Grouping(x1) => match b {
            Expr::Grouping(x2) => {
                lemma_eval_same_shape(*x1, *x2);
            },
            _ => {},
        },
        Expr::Literal(_) => {},
        Expr::Unary(_, x1) => match b {
            Expr::Unary(_, x2) => {
                lemma_eval_same_shape(*x1, *x2);
            },
            _ => {},
        },
    }
}

/// The model of an evaluation's result.
pub open spec fn fault_view(r: Result<Literal, Error>) -> Result<Value, Fault> {
    match r {
        Ok(v) => Ok(v@),
        Err(e) => Err((e.line, e.message@)),
    }
}

/// Whether `new_log` is `old_log` with one runtime error of `f` appended.
pub open spec fn records_fault(old_log: Seq<Error>, new_log: Seq<Error>, f: Fault) -> bool {
    &&& new_log.len() == old_log.len() + 1
    &&& new_log.take(old_log.len() as int) == old_log
    &&& new_log.last().line == f.0
    &&& new_log.last().message@ == f.1
    &&& new_log.last().why@ == Seq::<char>::empty()
}

/// The evaluator, with the double arithmetic it delegates.
pub struct Interpreter<'a, F: FloatArith> {
    pub floats: &'a F,
}

impl<'a, F: FloatArith> Interpreter<'a, F> {
    pub fn new(floats: &'a F) -> (r: Self)
        ensures
            r.floats == floats,
    {
        Interpreter { floats }
    }

    /// Evaluates `expr`. On success the value comes back and nothing is
    /// recorded; on failure exactly one runtime error is recorded, with an
    /// empty context, and nothing comes back. The outcome is one that
    /// [`evaluates`] allows, and exactly that of [`eval`] where no double
    /// takes part.
    pub fn interpret(&self, expr: Box<Expr>, errors: &mut ErrorManager) -> (r: Option<Literal>)
        ensures
            float_free(*expr) ==> match eval(*expr) {
                Ok(v) => r is Some && r->Some_0@ == v,
                Err(f) => r is None && records_fault(old(errors).log(), final(errors).log(), f),
            },
            exists|o: Result<Value, Fault>| #[trigger] evaluates(*expr, o) && match o {
                Ok(v) => r is Some && r->Some_0@ == v && final(errors).log() == old(errors).log(),
                Err(f) => r is None && records_fault(old(errors).log(), final(errors).log(), f),
            },
    {
        let ghost e = *expr;
        let (res, tr) = self.evaluate(expr);
        assert(traces(e, tr@));
        assert(evaluates(e, fault_view(res)));
        match res {
            Ok(v) => Some(v),
            Err(err) => {
                let ghost f: Fault = (err.line, err.message@);
                let why = String::new();
                let err = Error::new(err.line, err.message, why);
                errors.add_runtime_error(err);
                assert(final(errors).log().take(old(errors).log().len() as int) =~= old(errors).log());
                assert(records_fault(old(errors).log(), errors.log(), f));
                None
            },
        }
    }

    fn evaluate(&self, expr: Box<Expr>) -> (r: (Result<Literal, Error>, Ghost<Trace>))
        ensures
            traces(*expr, r.1@),
            trace_outcome(r.1@) == fault_view(r.0),
            float_free(*expr) ==> fault_view(r.0) == eval(*expr),
            float_free(*expr) && r.0 is Ok ==> !(r.0->Ok_0@ is Float),
        decreases expr,
    {
        match *expr {
            Expr::Literal(v) => {
                let ghost o = Ok::<Value, Fault>(v@);
                (Ok(v), Ghost(Trace::Leaf(o)))
            },
            Expr::Grouping(x) => self.evaluate(x),
            Expr::Unary(t, x) => {
                let (rx, kx) = self.evaluate(x);
                let out = match rx {
                    Err(e) => Err(e),
                    Ok(v) => Self::at_line(t.line, apply_unary(t.token_type, v)),
                };
                let ghost tr = Trace::Unary(Box::new(kx@), fault_view(out));
                (out, Ghost(tr))
            },
            Expr::Binary(l, t, r) => {
                let (ra, ka) = self.evaluate(l);
                match ra {
                    Err(e) => {
                        let ghost tr = Trace::Binary(Box::new(ka@), Box::new(ka@), fault_view(Err::<Literal, Error>(e)));
                        (Err(e), Ghost(tr))
                    },
                    Ok(a) => {
                        let (rb, kb) = self.evaluate(r);
                        match rb {
                            Err(e) => {
                                let ghost tr = Trace::Binary(Box::new(ka@), Box::new(kb@), fault_view(Err::<Literal, Error>(e)));
                                (Err(e), Ghost(tr))
                            },
                            Ok(b) => {
                                let ghost (av, bv) = (a@, b@);
                                let res = apply_binary(t.token_type, a, b, self.floats);
                                let out = Self::at_line(t.line, res);
                                proof {
                                    if av is Float || bv is Float {
                                        assert(float_binary_shape(t.token_type, av, bv, crate::literal::outcome(res)));
                                        assert(fault_view(out) == at_line(t.line, crate::literal::outcome(res)));
                                    }
                                }
                                let ghost tr = Trace::Binary(Box::new(ka@), Box::new(kb@), fault_view(out));
                                (out, Ghost(tr))
                            },
                        }
                    },
                }
            },
            Expr::Ternary(c, th, el) => {
                let (rc, kc) = self.evaluate(c);
                match rc {
                    Err(e) => {
                        let ghost tr = Trace::Ternary(Box::new(kc@), Box::new(kc@), fault_view(Err::<Literal, Error>(e)));
                        (Err(e), Ghost(tr))
                    },
                    Ok(v) => {
                        let (out, kb) = if v.is_true() {
                            self.evaluate(th)
                        } else {
                            self.evaluate(el)
                        };
                        let ghost tr = Trace::Ternary(Box::new(kc@), Box::new(kb@), fault_view(out));
                        (out, Ghost(tr))
                    },
                }
            },
        }
    }

    fn at_line(line: usize, r: Result<Literal, ErrorMessage>) -> (out: Result<Literal, Error>)
        ensures
            match r {
                Ok(v) => out == Ok::<Literal, Error>(v),
                Err(m) => out is Err && out->Err_0.line == line && out->Err_0.message == m.message
                    && out->Err_0.why@ == Seq::<char>::empty(),
            },
    {
        match r {
            Ok(v) => Ok(v),
            Err(m) => Err(Error::new(line, m.message, String::new())),
        }
    }
}

} // verus!
