//! Tokens: the kinds the lexer knows and the tokens it hands the parser.
use vstd::prelude::*;
use crate::literal::Literal;

verus! {

/// Every kind of token: punctuation, operators, literals, keywords and the end marker.
#[allow(non_camel_case_types, clippy::upper_case_acronyms)]
#[derive(Clone, Copy, Debug, PartialEq, Eq, Structural)]
pub enum TokenType {
    LEFTPAREN,
    RIGHTPAREN,
    LEFTBRACE,
    RIGHTBRACE,
    DOT,
    COMMA,
    PLUS,
    MINUS,
    STAR,
    SEMICOLON,
    XOR,
    MODULO,
    AMPERSAND,
    PIPE,
    QUESTION,
    COLON,
    BANG,
    BANGEQUAL,
    EQUAL,
    EQUALEQUAL,
    GREATER,
    GREATEREQUAL,
    GREATERGREATER,
    LESS,
    LESSEQUAL,
    LESSLESS,
    SLASH,
    STRING,
    INTEGER,
    FLOAT,
    IDENTIFIER,
    AND,
    OR,
    CLASS,
    ELSE,
    FALSE,
    IF,
    FOR,
    FUN,
    PRINT,
    RETURN,
    NIL,
    SUPER,
    THIS,
    TRUE,
    VAR,
    WHILE,
    EOF,
}

/// A scanned token: its kind, its 1-based line, the exact text it was scanned
/// from, and the value of a string or number literal.
pub struct Token {
    pub token_type: TokenType,
    pub line: usize,
    pub lexeme: String,
    pub literal: Option<Literal>,
}

impl Token {
    pub fn new(token_type: TokenType, line: usize, lexeme: String, literal: Option<Literal>) -> (r: Self)
        ensures
            r == (Token { token_type, line, lexeme, literal }),
    {
        Token { token_type, line, lexeme, literal }
    }

    /// A copy of this token.
    pub fn duplicate(&self) -> (r: Self)
        ensures
            r == *self,
    {
        let literal = match &self.literal {
            Some(v) => Some(v.duplicate()),
            None => None,
        };
        Token { token_type: self.token_type, line: self.line, lexeme: self.lexeme.clone(), literal }
    }
}

} // verus!
