//! Runtime values and the type-directed rules of the binary and unary operators.
use vstd::prelude::*;
use crate::error::ErrorMessage;
use crate::text::int_text;
use crate::token::TokenType;

verus! {

/// A runtime value. A float is held as the bits of an IEEE-754 double.
pub enum Literal {
    String(String),
    Float(u64),
    Int(i64),
    Bool(bool),
    Null,
}

/// The mathematical model of a [`Literal`].
pub enum Value {
    Str(Seq<char>),
    Float(u64),
    Int(i64),
    Bool(bool),
    Null,
}

impl View for Literal {
    type V = Value;

    open spec fn view(&self) -> Value {
        match self {
            Literal::String(s) => Value::Str(s@),
            Literal::Float(f) => Value::Float(*f),
            Literal::Int(i) => Value::Int(*i),
            Literal::Bool(b) => Value::Bool(*b),
            Literal::Null => Value::Null,
        }
    }
}

/// Double-precision arithmetic, supplied by the host of the library: every
/// value is the bit pattern of an IEEE-754 double.
pub trait FloatArith {
    /// The double nearest to a decimal text of the form `digits.digits`.
    fn parse_decimal(&self, text: &str) -> u64;

    /// The double nearest to `i`.
    fn from_int(&self, i: i64) -> u64;

    /// `a <op> b` for `op` one of `PLUS`, `MINUS`, `STAR`, `SLASH`, `MODULO`.
    fn arith(&self, op: TokenType, a: u64, b: u64) -> u64;

    /// `a <op> b` for `op` one of the six comparison operators.
    fn compare(&self, op: TokenType, a: u64, b: u64) -> bool;

    /// The debugging text of a double, as in `2.5` or `1.0`.
    fn debug_text(&self, a: u64) -> String;

    /// The display text of a double, as in `2.5` or `1`.
    fn display_text(&self, a: u64) -> String;
}

/// The sign bit of a double; negation flips it.
pub const SIGN_BIT: u64 = 0x8000_0000_0000_0000;

/// Whether two values are alike: equal, or both doubles (whose bits are the
/// host's to compute).
pub open spec fn alike(a: Value, b: Value) -> bool {
    (a is Float && b is Float) || a == b
}

/// Whether a value counts as true: `Null` and `Bool(false)` do not, all else does.
pub open spec fn truthy(v: Value) -> bool {
    match v {
        Value::Null => false,
        Value::Bool(b) => b,
        _ => true,
    }
}

pub open spec fn is_number(v: Value) -> bool {
    v is Int || v is Float
}

/// How an operator treats the kinds of its operands.
#[derive(Clone, Copy, PartialEq, Eq, Structural)]
pub enum OpClass {
    /// `+`: numbers, or two strings.
    Sum,
    /// `- / * %`: numbers only.
    Numeric,
    /// `<< >> & | ^`: two integers only.
    Integer,
    /// `== != > >= < <=`: numbers, or two strings; the result is a boolean.
    Compare,
    /// Any other token: the result is `Null`.
    Other,
}

pub open spec fn op_class(op: TokenType) -> OpClass {
    match op {
        TokenType::PLUS => OpClass::Sum,
        TokenType::MINUS | TokenType::SLASH | TokenType::STAR | TokenType::MODULO => OpClass::Numeric,
        TokenType::LESSLESS | TokenType::GREATERGREATER | TokenType::AMPERSAND
        | TokenType::PIPE | TokenType::XOR => OpClass::Integer,
        TokenType::BANGEQUAL | TokenType::EQUALEQUAL | TokenType::GREATER
        | TokenType::GREATEREQUAL | TokenType::LESS | TokenType::LESSEQUAL => OpClass::Compare,
        _ => OpClass::Other,
    }
}

/// The name of an operation in error messages.
pub open spec fn op_name(op: TokenType) -> Seq<char> {
    match op {
        TokenType::PLUS => "Addition"@,
        TokenType::MINUS => "Subtraction"@,
        TokenType::SLASH => "Division"@,
        TokenType::STAR => "Multiplication"@,
        TokenType::MODULO => "Modulo"@,
        TokenType::LESSLESS => "Left Shift"@,
        TokenType::GREATERGREATER => "Right Shift"@,
        TokenType::AMPERSAND => "Bit And"@,
        TokenType::PIPE => "Bit Or"@,
        TokenType::XOR => "Xor"@,
        TokenType::BANGEQUAL => "Not Equal"@,
        TokenType::EQUALEQUAL => "Equal to"@,
        TokenType::GREATER => "Greater"@,
        TokenType::GREATEREQUAL => "Greater Or Equal"@,
        TokenType::LESS => "Lesser"@,
        TokenType::LESSEQUAL => "Lesser or Equal"@,
        _ => Seq::empty(),
    }
}

/// How one character of a string is written inside a description.
pub open spec fn escape_char(c: char) -> Seq<char> {
    if c == '"' {
        seq!['\\', '"']
    } else if c == '\\' {
        seq!['\\', '\\']
    } else if c == '\n' {
        seq!['\\', 'n']
    } else if c == '\t' {
        seq!['\\', 't']
    } else if c == '\r' {
        seq!['\\', 'r']
    } else if c == '\0' {
        seq!['\\', '0']
    } else {
        seq![c]
    }
}

pub open spec fn escaped(s: Seq<char>) -> Seq<char>
    decreases s.len(),
{
    if s.len() == 0 {
        Seq::empty()
    } else {
        escaped(s.drop_last()) + escape_char(s.last())
    }
}

/// How a value is named in an error message, as in `Int(1)` or `String("x")`;
/// `float_text` is the text of the double for a `Float`.
pub open spec fn describe(v: Value, float_text: Seq<char>) -> Seq<char> {
    match v {
        Value::Str(s) => "String(\""@ + escaped(s) + "\")"@,
        Value::Float(_) => "Float("@ + float_text + ")"@,
        Value::Int(i) => "Int("@ + int_text(i as int) + ")"@,
        Value::Bool(b) => if b { "Bool(true)"@ } else { "Bool(false)"@ },
        Value::Null => "Null"@,
    }
}

/// The message of an operator applied to operand kinds it does not accept.
pub open spec fn type_error(op: TokenType, l: Value, r: Value, lt: Seq<char>, rt: Seq<char>) -> Seq<char> {
    op_name(op) + " not supported between "@ + describe(l, lt) + " and "@ + describe(r, rt)
}

pub open spec fn overflow_error(op: TokenType) -> Seq<char> {
    op_name(op) + " overflow"@
}

pub open spec fn zero_error(op: TokenType) -> Seq<char> {
    op_name(op) + " by zero"@
}

/// Lexicographic order of character sequences, by code point.
pub open spec fn seq_less(a: Seq<char>, b: Seq<char>) -> bool
    decreases a.len(),
{
    if a.len() == 0 {
        b.len() > 0
    } else if b.len() == 0 {
        false
    } else if a[0] != b[0] {
        (a[0] as u32) < (b[0] as u32)
    } else {
        seq_less(a.drop_first(), b.drop_first())
    }
}

/// An integer result, or the overflow error of `op` where it does not fit.
pub open spec fn int_result(op: TokenType, x: int) -> Result<Value, Seq<char>> {
    if i64::MIN <= x <= i64::MAX {
        Ok(Value::Int(x as i64))
    } else {
        Err(overflow_error(op))
    }
}

/// `a <op> b` on two integers.
pub open spec fn int_binary(op: TokenType, a: i64, b: i64) -> Result<Value, Seq<char>> {
    match op {
        TokenType::PLUS => int_result(op, a + b),
        TokenType::MINUS => int_result(op, a - b),
        TokenType::STAR => int_result(op, a * b),
        TokenType::SLASH => if b == 0 {
            Err(zero_error(op))
        } else {
            match a.checked_div(b) {
                Some(q) => Ok(Value::Int(q)),
                None => Err(overflow_error(op)),
            }
        },
        TokenType::MODULO => if b == 0 {
            Err(zero_error(op))
        } else {
            match a.checked_rem(b) {
                Some(q) => Ok(Value::Int(q)),
                None => Err(overflow_error(op)),
            }
        },
        TokenType::LESSLESS => if 0 <= b < 64 {
            Ok(Value::Int(a.wrapping_shl(b as u32)))
        } else {
            Err(overflow_error(op))
        },
        TokenType::GREATERGREATER => if 0 <= b < 64 {
            Ok(Value::Int(a.wrapping_shr(b as u32)))
        } else {
            Err(overflow_error(op))
        },
        TokenType::AMPERSAND => Ok(Value::Int(a & b)),
        TokenType::PIPE => Ok(Value::Int(a | b)),
        TokenType::XOR => Ok(Value::Int(a ^ b)),
        TokenType::BANGEQUAL => Ok(Value::Bool(a != b)),
        TokenType::EQUALEQUAL => Ok(Value::Bool(a == b)),
        TokenType::GREATER => Ok(Value::Bool(a > b)),
        TokenType::GREATEREQUAL => Ok(Value::Bool(a >= b)),
        TokenType::LESS => Ok(Value::Bool(a < b)),
        TokenType::LESSEQUAL => Ok(Value::Bool(a <= b)),
        _ => Ok(Value::Null),
    }
}

/// Comparison `a <op> b` of two strings.
pub open spec fn str_compare(op: TokenType, a: Seq<char>, b: Seq<char>) -> bool {
    match op {
        TokenType::BANGEQUAL => a != b,
        TokenType::EQUALEQUAL => a == b,
        TokenType::GREATER => seq_less(b, a),
        TokenType::GREATEREQUAL => !seq_less(a, b),
        TokenType::LESS => seq_less(a, b),
        _ => !seq_less(b, a),
    }
}

/// `l <op> r` where neither operand is a float.
pub open spec fn binary_spec(op: TokenType, l: Value, r: Value) -> Result<Value, Seq<char>> {
    match op_class(op) {
        OpClass::Other => Ok(Value::Null),
        OpClass::Sum => match (l, r) {
            (Value::Int(a), Value::Int(b)) => int_binary(op, a, b),
            (Value::Str(a), Value::Str(b)) => Ok(Value::Str(a + b)),
            _ => Err(type_error(op, l, r, Seq::empty(), Seq::empty())),
        },
        OpClass::Numeric | OpClass::Integer => match (l, r) {
            (Value::Int(a), Value::Int(b)) => int_binary(op, a, b),
            _ => Err(type_error(op, l, r, Seq::empty(), Seq::empty())),
        },
        OpClass::Compare => match (l, r) {
            (Value::Int(a), Value::Int(b)) => int_binary(op, a, b),
            (Value::Str(a), Value::Str(b)) => Ok(Value::Bool(str_compare(op, a, b))),
            _ => Err(type_error(op, l, r, Seq::empty(), Seq::empty())),
        },
    }
}

/// What holds of `l <op> r` where an operand is a float: the double arithmetic
/// itself is the host's.
pub open spec fn float_binary_shape(op: TokenType, l: Value, r: Value, out: Result<Value, Seq<char>>) -> bool {
    let arith = op_class(op) is Sum || op_class(op) is Numeric;
    if op_class(op) is Other {
        out == Ok::<Value, Seq<char>>(Value::Null)
    } else if arith && is_number(l) && is_number(r) {
        out is Ok && out->Ok_0 is Float
    } else if op_class(op) is Compare && is_number(l) && is_number(r) {
        out is Ok && out->Ok_0 is Bool
    } else {
        exists|lt: Seq<char>, rt: Seq<char>| out == Err::<Value, Seq<char>>(type_error(op, l, r, lt, rt))
    }
}

/// The model of an operator's outcome: the value, or the error message.
pub open spec fn outcome(r: Result<Literal, ErrorMessage>) -> Result<Value, Seq<char>> {
    match r {
        Ok(v) => Ok(v@),
        Err(e) => Err(e.message@),
    }
}

/// `op v` for the prefix operators `!` and `-`.
pub open spec fn unary_spec(op: TokenType, v: Value) -> Result<Value, Seq<char>> {
    match op {
        TokenType::BANG => Ok(Value::Bool(!truthy(v))),
        TokenType::MINUS => match v {
            Value::Int(i) => if i == i64::MIN { Err("Negation overflow"@) } else { Ok(Value::Int(-i as i64)) },
            Value::Float(f) => Ok(Value::Float(f ^ SIGN_BIT)),
            _ => Err("Operand must be number"@),
        },
        _ => Ok(Value::Null),
    }
}

/// The text that prints a value: a string as it is, `true`/`false`, `Null`,
/// and the decimal text of an integer; `float_text` stands for a double.
pub open spec fn display_spec(v: Value, float_text: Seq<char>) -> Seq<char> {
    match v {
        Value::Str(s) => s,
        Value::Float(_) => float_text,
        Value::Int(i) => int_text(i as int),
        Value::Bool(b) => if b { "true"@ } else { "false"@ },
        Value::Null => "Null"@,
    }
}

impl Literal {
    /// A copy of this value.
    pub fn duplicate(&self) -> (r: Literal)
        ensures
            r == *self,
    {
        match self {
            Literal::String(s) => Literal::String(s.clone()),
            Literal::Float(f) => Literal::Float(*f),
            Literal::Int(i) => Literal::Int(*i),
            Literal::Bool(b) => Literal::Bool(*b),
            Literal::Null => Literal::Null,
        }
    }

    pub fn is_true(&self) -> (r: bool)
        ensures
            r == truthy(self@),
    {
        match self {
            Literal::Null => false,
            Literal::Bool(b) => *b,
            _ => true,
        }
    }
}

} // verus!
