//! The operators on values, with the promotion rules of the language.
use vstd::prelude::*;
use crate::error::ErrorMessage;
use crate::literal::{
    describe, display_spec, escape_char, escaped, float_binary_shape, op_class, op_name, outcome, seq_less,
    str_compare, type_error, unary_spec, binary_spec, int_binary, FloatArith, Literal, OpClass, SIGN_BIT,
};
use crate::text::int_text;
use crate::text::{char_vec, push_int, push_str, string_from};
use crate::token::TokenType;

verus! {

pub fn classify(op: TokenType) -> (r: OpClass)
    ensures
        r == op_class(op),
{
    match op {
        TokenType::PLUS => OpClass::Sum,
        TokenType::MINUS | TokenType::SLASH | TokenType::STAR | TokenType::MODULO => OpClass::Numeric,
        TokenType::LESSLESS | TokenType::GREATERGREATER | TokenType::AMPERSAND
        | TokenType::PIPE | TokenType::XOR => OpClass::Integer,
        TokenType::BANGEQUAL | TokenType::EQUALEQUAL | TokenType::GREATER
        | TokenType::GREATEREQUAL | TokenType::LESS | TokenType::LESSEQUAL => OpClass::Compare,
        _ => OpClass::Other,
    }
}

fn push_op_name(out: &mut Vec<char>, op: TokenType)
    ensures
        final(out)@ == old(out)@ + op_name(op),
{
    match op {
        TokenType::PLUS => {
            push_str(out, "Addition");
        },
        TokenType::MINUS => {
            push_str(out, "Subtraction");
        },
        TokenType::SLASH => {
            push_str(out, "Division");
        },
        TokenType::STAR => {
            push_str(out, "Multiplication");
        },
        TokenType::MODULO => {
            push_str(out, "Modulo");
        },
        TokenType::LESSLESS => {
            push_str(out, "Left Shift");
        },
        TokenType::GREATERGREATER => {
            push_str(out, "Right Shift");
        },
        TokenType::AMPERSAND => {
            push_str(out, "Bit And");
        },
        TokenType::PIPE => {
            push_str(out, "Bit Or");
        },
        TokenType::XOR => {
            push_str(out, "Xor");
        },
        TokenType::BANGEQUAL => {
            push_str(out, "Not Equal");
        },
        TokenType::EQUALEQUAL => {
            push_str(out, "Equal to");
        },
        TokenType::GREATER => {
            push_str(out, "Greater");
        },
        TokenType::GREATEREQUAL => {
            push_str(out, "Greater Or Equal");
        },
        TokenType::LESS => {
            push_str(out, "Lesser");
        },
        TokenType::LESSEQUAL => {
            push_str(out, "Lesser or Equal");
        },
        _ => {
            assert(out@ =~= old(out)@ + op_name(op));
        },
    }
}

fn escape_one(out: &mut Vec<char>, c: char)
    ensures
        final(out)@ == old(out)@ + escape_char(c),
{
    if c == '"' {
        out.push('\\');
        out.push('"');
    } else if c == '\\' {
        out.push('\\');
        out.push('\\');
    } else if c == '\n' {
        out.push('\\');
        out.push('n');
    } else if c == '\t' {
        out.push('\\');
        out.push('t');
    } else if c == '\r' {
        out.push('\\');
        out.push('r');
    } else if c == '\0' {
        out.push('\\');
        out.push('0');
    } else {
        out.push(c);
    }
    assert(out@ =~= old(out)@ + escape_char(c));
}

fn push_escaped(out: &mut Vec<char>, s: &String)
    ensures
        final(out)@ == old(out)@ + escaped(s@),
{
    let cs = char_vec(s.as_str());
    let mut i: usize = 0;
    while i < cs.len()
        invariant
            cs@ == s@,
            i <= cs@.len(),
            out@ == old(out)@ + escaped(cs@.subrange(0, i as int)),
        decreases cs@.len() - i,
    {
        proof {
            let p = cs@.subrange(0, i as int + 1);
            assert(p.drop_last() =~= cs@.subrange(0, i as int));
            assert(p.last() == cs@[i as int]);
        }
        escape_one(out, cs[i]);
        i = i + 1;
        assert(out@ =~= old(out)@ + escaped(cs@.subrange(0, i as int)));
    }
    assert(cs@.subrange(0, i as int) =~= s@);
}

/// Appends how `v` is named in an error message; the ghost result is the
/// text that stands for a double.
fn push_description<F: FloatArith>(out: &mut Vec<char>, v: &Literal, floats: &F) -> (t: Ghost<Seq<char>>)
    ensures
        final(out)@ == old(out)@ + describe(v@, t@),
        !(v@ is Float) ==> t@ == Seq::<char>::empty(),
{
    match v {
        Literal::String(s) => {
            push_str(out, "String(\"");
            push_escaped(out, s);
            push_str(out, "\")");
            assert(out@ =~= old(out)@ + describe(v@, Seq::empty()));
            Ghost(Seq::empty())
        },
        Literal::Float(f) => {
            let t = floats.debug_text(*f);
            push_str(out, "Float(");
            push_str(out, t.as_str());
            push_str(out, ")");
            assert(out@ =~= old(out)@ + describe(v@, t@));
            Ghost(t@)
        },
        Literal::Int(i) => {
            push_str(out, "Int(");
            push_int(out, *i);
            push_str(out, ")");
            assert(out@ =~= old(out)@ + describe(v@, Seq::empty()));
            Ghost(Seq::empty())
        },
        Literal::Bool(b) => {
            if *b {
                push_str(out, "Bool(true)");
            } else {
                push_str(out, "Bool(false)");
            }
            Ghost(Seq::empty())
        },
        Literal::Null => {
            push_str(out, "Null");
            Ghost(Seq::empty())
        },
    }
}

fn type_error_message<F: FloatArith>(op: TokenType, l: &Literal, r: &Literal, floats: &F) -> (m: ErrorMessage)
    ensures
        !(l@ is Float) && !(r@ is Float) ==> m.message@ == type_error(op, l@, r@, Seq::empty(), Seq::empty()),
        exists|lt: Seq<char>, rt: Seq<char>| m.message@ == type_error(op, l@, r@, lt, rt),
{
    let mut cs: Vec<char> = Vec::new();
    push_op_name(&mut cs, op);
    push_str(&mut cs, " not supported between ");
    let lt = push_description(&mut cs, l, floats);
    push_str(&mut cs, " and ");
    let rt = push_description(&mut cs, r, floats);
    assert(cs@ =~= type_error(op, l@, r@, lt@, rt@));
    ErrorMessage { message: string_from(cs.as_slice()) }
}

fn message_with(op: TokenType, suffix: &str) -> (m: ErrorMessage)
    ensures
        m.message@ == op_name(op) + suffix@,
{
    let mut cs: Vec<char> = Vec::new();
    push_op_name(&mut cs, op);
    push_str(&mut cs, suffix);
    ErrorMessage { message: string_from(cs.as_slice()) }
}

/// Whether `a` comes before `b` in the order of code points.
pub fn str_less(a: &String, b: &String) -> (r: bool)
    ensures
        r == seq_less(a@, b@),
{
    let x = char_vec(a.as_str());
    let y = char_vec(b.as_str());
    let mut i: usize = 0;
    assert(x@.subrange(0, x@.len() as int) =~= x@);
    assert(y@.subrange(0, y@.len() as int) =~= y@);
    while i < x.len() && i < y.len() && x[i] == y[i]
        invariant
            x@ == a@,
            y@ == b@,
            i <= x@.len(),
            i <= y@.len(),
            seq_less(a@, b@) == seq_less(x@.subrange(i as int, x@.len() as int), y@.subrange(i as int, y@.len() as int)),
        decreases x@.len() - i,
    {
        proof {
            let xs = x@.subrange(i as int, x@.len() as int);
            let ys = y@.subrange(i as int, y@.len() as int);
            assert(xs.drop_first() =~= x@.subrange(i as int + 1, x@.len() as int));
            assert(ys.drop_first() =~= y@.subrange(i as int + 1, y@.len() as int));
        }
        i = i + 1;
    }
    let ghost xs = x@.subrange(i as int, x@.len() as int);
    let ghost ys = y@.subrange(i as int, y@.len() as int);
    if i == x.len() {
        assert(xs.len() == 0);
        i < y.len()
    } else if i == y.len() {
        assert(ys.len() == 0);
        false
    } else {
        assert(xs[0] == x@[i as int] && ys[0] == y@[i as int]);
        (x[i] as u32) < (y[i] as u32)
    }
}

fn int_op(op: TokenType, a: i64, b: i64) -> (r: Result<Literal, ErrorMessage>)
    ensures
        outcome(r) == int_binary(op, a, b),
{
    match op {
        TokenType::PLUS => match a.checked_add(b) {
            Some(v) => Ok(Literal::Int(v)),
            None => Err(message_with(op, " overflow")),
        },
        TokenType::MINUS => match a.checked_sub(b) {
            Some(v) => Ok(Literal::Int(v)),
            None => Err(message_with(op, " overflow")),
        },
        TokenType::STAR => match a.checked_mul(b) {
            Some(v) => Ok(Literal::Int(v)),
            None => Err(message_with(op, " overflow")),
        },
        TokenType::SLASH => if b == 0 {
            Err(message_with(op, " by zero"))
        } else {
            match a.checked_div(b) {
                Some(v) => Ok(Literal::Int(v)),
                None => Err(message_with(op, " overflow")),
            }
        },
        TokenType::MODULO => if b == 0 {
            Err(message_with(op, " by zero"))
        } else {
            match a.checked_rem(b) {
                Some(v) => Ok(Literal::Int(v)),
                None => Err(message_with(op, " overflow")),
            }
        },
        TokenType::LESSLESS => if 0 <= b && b < 64 {
            Ok(Literal::Int(a.wrapping_shl(b as u32)))
        } else {
            Err(message_with(op, " overflow"))
        },
        TokenType::GREATERGREATER => if 0 <= b && b < 64 {
            Ok(Literal::Int(a.wrapping_shr(b as u32)))
        } else {
            Err(message_with(op, " overflow"))
        },
        TokenType::AMPERSAND => Ok(Literal::Int(a & b)),
        TokenType::PIPE => Ok(Literal::Int(a | b)),
        TokenType::XOR => Ok(Literal::Int(a ^ b)),
        TokenType::BANGEQUAL => Ok(Literal::Bool(a != b)),
        TokenType::EQUALEQUAL => Ok(Literal::Bool(a == b)),
        TokenType::GREATER => Ok(Literal::Bool(a > b)),
        TokenType::GREATEREQUAL => Ok(Literal::Bool(a >= b)),
        TokenType::LESS => Ok(Literal::Bool(a < b)),
        TokenType::LESSEQUAL => Ok(Literal::Bool(a <= b)),
        _ => Ok(Literal::Null),
    }
}

fn str_op(op: TokenType, class: OpClass, a: &String, b: &String) -> (r: bool)
    requires
        class == op_class(op),
        class is Compare,
    ensures
        r == str_compare(op, a@, b@),
{
    match op {
        TokenType::BANGEQUAL => !(*a == *b),
        TokenType::EQUALEQUAL => *a == *b,
        TokenType::GREATER => str_less(b, a),
        TokenType::GREATEREQUAL => !str_less(a, b),
        TokenType::LESS => str_less(a, b),
        _ => !str_less(b, a),
    }
}

/// `left <op> right`, under the promotion rules: integers stay integers, an
/// integer meets a float as a float, two strings concatenate under `+` and
/// compare by code points, and any other pairing is a type error.
pub fn apply_binary<F: FloatArith>(op: TokenType, left: Literal, right: Literal, floats: &F) -> (r: Result<Literal, ErrorMessage>)
    ensures
        !(left@ is Float) && !(right@ is Float) ==> outcome(r) == binary_spec(op, left@, right@),
        left@ is Float || right@ is Float ==> float_binary_shape(op, left@, right@, outcome(r)),
{
    let class = classify(op);
    if class == OpClass::Other {
        return Ok(Literal::Null);
    }
    let promoted: Option<(u64, u64)> = match (&left, &right) {
        (Literal::Float(a), Literal::Float(b)) => Some((*a, *b)),
        (Literal::Int(a), Literal::Float(b)) => Some((floats.from_int(*a), *b)),
        (Literal::Float(a), Literal::Int(b)) => Some((*a, floats.from_int(*b))),
        _ => None,
    };
    match promoted {
        Some((a, b)) => {
            if class == OpClass::Sum || class == OpClass::Numeric {
                Ok(Literal::Float(floats.arith(op, a, b)))
            } else if class == OpClass::Compare {
                Ok(Literal::Bool(floats.compare(op, a, b)))
            } else {
                Err(type_error_message(op, &left, &right, floats))
            }
        },
        None => match (&left, &right) {
            (Literal::Int(a), Literal::Int(b)) => int_op(op, *a, *b),
            (Literal::String(a), Literal::String(b)) => {
                if class == OpClass::Sum {
                    let mut s = a.clone();
                    s.append(b.as_str());
                    Ok(Literal::String(s))
                } else if class == OpClass::Compare {
                    Ok(Literal::Bool(str_op(op, class, a, b)))
                } else {
                    Err(type_error_message(op, &left, &right, floats))
                }
            },
            _ => Err(type_error_message(op, &left, &right, floats)),
        },
    }
}

/// `op v` for the prefix operators: `!` negates truthiness, `-` negates a
/// number (a float by its sign bit), and anything else gives `Null`.
pub fn apply_unary(op: TokenType, v: Literal) -> (r: Result<Literal, ErrorMessage>)
    ensures
        outcome(r) == unary_spec(op, v@),
{
    match op {
        TokenType::BANG => Ok(Literal::Bool(!v.is_true())),
        TokenType::MINUS => match v {
            Literal::Int(i) => if i == i64::MIN {
                Err(ErrorMessage::new("Negation overflow"))
            } else {
                Ok(Literal::Int(-i))
            },
            Literal::Float(f) => Ok(Literal::Float(f ^ SIGN_BIT)),
            _ => Err(ErrorMessage::new("Operand must be number")),
        },
        _ => Ok(Literal::Null),
    }
}

/// The text that prints `v`.
pub fn display<F: FloatArith>(v: &Literal, floats: &F) -> (r: String)
    ensures
        !(v@ is Float) ==> r@ == display_spec(v@, Seq::empty()),
{
    match v {
        Literal::String(s) => {
            let r = s.clone();
            assert(r@ == display_spec(v@, Seq::empty()));
            r
        },
        Literal::Float(f) => {
            let r = floats.display_text(*f);
            assert(r@ == display_spec(v@, r@));
            r
        },
        Literal::Int(i) => {
            let mut cs: Vec<char> = Vec::new();
            push_int(&mut cs, *i);
            assert(cs@ =~= int_text(*i as int));
            string_from(cs.as_slice())
        },
        Literal::Bool(b) => {
            let mut cs: Vec<char> = Vec::new();
            push_str(&mut cs, if *b { "true" } else { "false" });
            assert(cs@ =~= display_spec(v@, Seq::empty()));
            string_from(cs.as_slice())
        },
        Literal::Null => {
            let mut cs: Vec<char> = Vec::new();
            push_str(&mut cs, "Null");
            assert(cs@ =~= display_spec(v@, Seq::empty()));
            string_from(cs.as_slice())
        },
    }
}

} // verus!
