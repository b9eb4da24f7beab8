//! A front end and tree-walking evaluator for a small expression language.
//!
//! Source text is scanned into tokens ([`lexer`]), parsed into an expression
//! tree by recursive descent ([`parser`]), and evaluated into a tagged value
//! ([`interpreter`], with the operator rules in [`ops`]). Every problem is
//! recorded in one log per run ([`error`]); [`hiscript`] runs the three stages
//! in turn. Double arithmetic is left to the host through
//! [`literal::FloatArith`]: a double is carried as its IEEE-754 bits.
pub mod text;
pub mod token;
pub mod literal;
pub mod ops;
pub mod expr;
pub mod interpreter;
pub mod lexer;
pub mod parser;
pub mod hiscript;
pub mod error;

pub use error::{Error, ErrorManager, ErrorMessage};
pub use expr::Expr;
pub use hiscript::HiScript;
pub use interpreter::Interpreter;
pub use lexer::Lexer;
pub use literal::{FloatArith, Literal};
pub use parser::Parser;
pub use token::{Token, TokenType};
