//! The diagnostics collector shared by the lexer, the parser and the evaluator.
use vstd::prelude::*;
use crate::text::{nat_digits, push_str, push_usize, string_from};

verus! {

/// One recorded problem: the source line, what went wrong, and where
/// (`at end`, `at '<lexeme>'`, or empty).
pub struct Error {
    pub line: usize,
    pub message: String,
    pub why: String,
}

/// The message of an operation that failed, before a line is attached to it.
pub struct ErrorMessage {
    pub message: String,
}

impl ErrorMessage {
    pub fn new(message: &str) -> (r: Self)
        ensures
            r.message@ == message@,
    {
        ErrorMessage { message: message.to_string() }
    }

    pub fn get_message(self) -> (r: String)
        ensures
            r == self.message,
    {
        self.message
    }
}

impl Error {
    pub fn new(line: usize, message: String, why: String) -> (r: Self)
        ensures
            r == (Error { line, message, why }),
    {
        Error { line, message, why }
    }
}

/// The text that reports `e`: `[line <line>] Error <why>: <message>`.
pub open spec fn report_text(e: Error) -> Seq<char> {
    "[line "@ + nat_digits(e.line as nat) + "] Error "@ + e.why@ + ": "@ + e.message@
}

/// The append-only log of one run: lexical, syntax and runtime errors alike.
pub struct ErrorManager {
    errors: Vec<Error>,
}

impl ErrorManager {
    /// Everything recorded, oldest first.
    pub closed spec fn log(&self) -> Seq<Error> {
        self.errors@
    }

    pub fn new() -> (r: Self)
        ensures
            r.log() == Seq::<Error>::empty(),
    {
        ErrorManager { errors: Vec::new() }
    }

    /// Records a lexical or syntax error.
    pub fn add_error(&mut self, line: usize, message: String, why: String)
        ensures
            final(self).log() == old(self).log().push(Error { line, message, why }),
    {
        self.errors.push(Error::new(line, message, why));
    }

    /// Records an error raised while evaluating.
    pub fn add_runtime_error(&mut self, error: Error)
        ensures
            final(self).log() == old(self).log().push(error),
    {
        self.errors.push(error);
    }

    /// Whether any error, lexical, syntax or runtime, is recorded.
    pub fn has_errors(&self) -> (r: bool)
        ensures
            r == (self.log().len() > 0),
    {
        self.errors.len() > 0
    }

    /// Forgets every recorded error.
    pub fn clear_errors(&mut self)
        ensures
            final(self).log() == Seq::<Error>::empty(),
    {
        self.errors = Vec::new();
    }

    /// The recorded errors, oldest first.
    pub fn errors(&self) -> (r: &Vec<Error>)
        ensures
            r@ == self.log(),
    {
        &self.errors
    }

    /// One report line per recorded error, in order.
    pub fn report_lines(&self) -> (r: Vec<String>)
        ensures
            r@.len() == self.log().len(),
            forall|i: int| 0 <= i < r@.len() ==> #[trigger] r@[i]@ == report_text(self.log()[i]),
    {
        let mut out: Vec<String> = Vec::new();
        let mut i: usize = 0;
        while i < self.errors.len()
            invariant
                i <= self.errors@.len(),
                out@.len() == i,
                forall|k: int| 0 <= k < i ==> #[trigger] out@[k]@ == report_text(self.errors@[k]),
            decreases self.errors@.len() - i,
        {
            let e = &self.errors[i];
            let mut cs: Vec<char> = Vec::new();
            push_str(&mut cs, "[line ");
            push_usize(&mut cs, e.line);
            push_str(&mut cs, "] Error ");
            push_str(&mut cs, e.why.as_str());
            push_str(&mut cs, ": ");
            push_str(&mut cs, e.message.as_str());
            let s = string_from(cs.as_slice());
            out.push(s);
            i = i + 1;
        }
        out
    }
}

} // verus!
