//! Coercions that the second machine's builtins apply to their arguments.

use crate::value::{ObjectId, Value};
use vstd::prelude::*;

verus! {

/// Why a value could not be coerced.
#[derive(Clone, Copy, Debug, PartialEq, Eq, Structural)]
pub enum CoerceError {
    /// An object was wanted and the value is not one.
    NotAnObject,
    /// A primitive was wanted from an object: that takes a method call, which
    /// is the interpreter's to make.
    NeedsPrimitive,
}

pub open spec fn digit_char(d: int) -> char {
    if d == 0 {
        '0'
    } else if d == 1 {
        '1'
    } else if d == 2 {
        '2'
    } else if d == 3 {
        '3'
    } else if d == 4 {
        '4'
    } else if d == 5 {
        '5'
    } else if d == 6 {
        '6'
    } else if d == 7 {
        '7'
    } else if d == 8 {
        '8'
    } else {
        '9'
    }
}

/// The decimal digits of `n`, most significant first.
pub open spec fn digits_of(n: nat) -> Seq<char>
    decreases n,
{
    if n < 10 {
        seq![digit_char(n as int)]
    } else {
        digits_of(n / 10).push(digit_char((n % 10) as int))
    }
}

/// The decimal form of `n`, with a leading `-` when it is negative.
pub open spec fn decimal_text(n: int) -> Seq<char> {
    if n < 0 {
        seq!['-'] + digits_of((-n) as nat)
    } else {
        digits_of(n as nat)
    }
}

pub open spec fn is_digit(c: char) -> bool {
    '0' <= c && c <= '9'
}

/// The number that a run of decimal digits denotes.
pub open spec fn digits_value(s: Seq<char>) -> int
    decreases s.len(),
{
    if s.len() == 0 {
        0
    } else {
        digits_value(s.drop_last()) * 10 + (s.last() as int - '0' as int)
    }
}

/// The `i32` that `s` is the decimal form of: an optional sign, then one or
/// more digits, with a value in range.
pub open spec fn parsed_i32(s: Seq<char>) -> Option<i32> {
    let signed = s.len() > 0 && (s[0] == '-' || s[0] == '+');
    let body = if signed {
        s.drop_first()
    } else {
        s
    };
    let magnitude = digits_value(body);
    let v = if signed && s[0] == '-' {
        -magnitude
    } else {
        magnitude
    };
    if body.len() > 0 && (forall|i: int| 0 <= i < body.len() ==> is_digit(#[trigger] body[i])) && i32::MIN
        <= v <= i32::MAX {
        Some(v as i32)
    } else {
        None
    }
}

/// Relies on `i32`'s `Display` (through `to_string`): decimal digits, with
/// a leading `-` for a negative number.
#[verifier::external_body]
fn integer_text(n: i32) -> (r: String)
    ensures
        r@ == decimal_text(n as int),
{
    n.to_string()
}

/// Relies on `i32`'s `FromStr`: an optional `+` or `-` followed by digits,
/// in range, and nothing else.
#[verifier::external_body]
pub(crate) fn parse_integer(s: &str) -> (r: Option<i32>)
    ensures
        r == parsed_i32(s@),
{
    s.parse::<i32>().ok()
}

/// The text form of a value.
pub open spec fn string_form(v: Value) -> Result<Seq<char>, CoerceError> {
    match v {
        Value::Undefined => Ok("undefined"@),
        Value::Null => Ok("null"@),
        Value::Bool(b) => Ok(
            if b {
                "true"@
            } else {
                "false"@
            },
        ),
        Value::Integer(i) => Ok(decimal_text(i as int)),
        Value::String(s) => Ok(s@),
        Value::Object(_) => Err(CoerceError::NeedsPrimitive),
    }
}

/// The truth of a value.
pub open spec fn truth(v: Value) -> bool {
    match v {
        Value::Undefined => false,
        Value::Null => false,
        Value::Bool(b) => b,
        Value::Integer(i) => i != 0,
        Value::String(s) => s@.len() > 0,
        Value::Object(_) => true,
    }
}

/// The `i32` form of a value. Text that is not the decimal form of an `i32`
/// is not a number, which converts to 0.
pub open spec fn i32_form(v: Value) -> Result<i32, CoerceError> {
    match v {
        Value::Undefined => Ok(0),
        Value::Null => Ok(0),
        Value::Bool(b) => Ok(
            if b {
                1
            } else {
                0
            },
        ),
        Value::Integer(i) => Ok(i),
        Value::String(s) => Ok(
            match parsed_i32(s@) {
                Some(n) => n,
                None => 0,
            },
        ),
        Value::Object(_) => Err(CoerceError::NeedsPrimitive),
    }
}

/// The object that a value is.
pub open spec fn object_form(v: Value) -> Result<ObjectId, CoerceError> {
    match v {
        Value::Object(o) => Ok(o),
        _ => Err(CoerceError::NotAnObject),
    }
}

impl Value {
    /// The text form of this value (see `string_form`).
    pub fn coerce_to_string(&self) -> (r: Result<String, CoerceError>)
        ensures
            match r {
                Ok(s) => string_form(*self) == Ok::<Seq<char>, CoerceError>(s@),
                Err(e) => string_form(*self) == Err::<Seq<char>, CoerceError>(e),
            },
    {
        match self {
            Value::Undefined => Ok("undefined".to_owned()),
            Value::Null => Ok("null".to_owned()),
            Value::Bool(b) => {
                if *b {
                    Ok("true".to_owned())
                } else {
                    Ok("false".to_owned())
                }
            },
            Value::Integer(i) => Ok(integer_text(*i)),
            Value::String(s) => Ok(s.clone()),
            Value::Object(_) => Err(CoerceError::NeedsPrimitive),
        }
    }

    /// The truth of this value (see `truth`).
    pub fn coerce_to_boolean(&self) -> (r: bool)
        ensures
            r == truth(*self),
    {
        match self {
            Value::Undefined => false,
            Value::Null => false,
            Value::Bool(b) => *b,
            Value::Integer(i) => *i != 0,
            Value::String(s) => s.as_str().unicode_len() > 0,
            Value::Object(_) => true,
        }
    }

    /// The `i32` form of this value (see `i32_form`).
    pub fn coerce_to_i32(&self) -> (r: Result<i32, CoerceError>)
        ensures
            r == i32_form(*self),
    {
        match self {
            Value::Undefined => Ok(0),
            Value::Null => Ok(0),
            Value::Bool(b) => {
                if *b {
                    Ok(1)
                } else {
                    Ok(0)
                }
            },
            Value::Integer(i) => Ok(*i),
            Value::String(s) => match parse_integer(s.as_str()) {
                Some(n) => Ok(n),
                None => Ok(0),
            },
            Value::Object(_) => Err(CoerceError::NeedsPrimitive),
        }
    }

    /// The object this value is, if it is one.
    pub fn coerce_to_object(&self) -> (r: Result<ObjectId, CoerceError>)
        ensures
            r == object_form(*self),
    {
        match self {
            Value::Object(o) => Ok(*o),
            _ => Err(CoerceError::NotAnObject),
        }
    }
}

} // verus!
