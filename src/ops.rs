//! Comparison and type operators of the first machine, whose results depend
//! on the file version.

use crate::coerce::{parse_integer, parsed_i32};
use crate::value::Value;
use vstd::prelude::*;

verus! {

/// The last version whose `<` knows only numbers.
pub const LAST_NUMERIC_ONLY_VERSION: u8 = 4;

/// `===`: same kind and same contents.
pub open spec fn strictly_equal(a: Value, b: Value) -> bool {
    match (a, b) {
        (Value::Undefined, Value::Undefined) => true,
        (Value::Null, Value::Null) => true,
        (Value::Bool(x), Value::Bool(y)) => x == y,
        (Value::Integer(x), Value::Integer(y)) => x == y,
        (Value::String(x), Value::String(y)) => x@ == y@,
        (Value::Object(x), Value::Object(y)) => x == y,
        _ => false,
    }
}

/// The number a primitive value stands for when compared with a number:
/// `None` when it is not a number (undefined, text that is not a decimal
/// integer) or when it is an object.
pub open spec fn numeric_form(v: Value) -> Option<int> {
    match v {
        Value::Null => Some(0),
        Value::Bool(b) => Some(
            if b {
                1
            } else {
                0
            },
        ),
        Value::Integer(i) => Some(i as int),
        Value::String(s) => match parsed_i32(s@) {
            Some(n) => Some(n as int),
            None => None,
        },
        _ => None,
    }
}

/// `==`: strict equality for values of one kind; undefined and null equal
/// each other; a number, boolean or text equals another of them when both
/// stand for the same number. Objects equal only themselves.
pub open spec fn loosely_equal(a: Value, b: Value) -> bool {
    if strictly_equal(a, b) {
        true
    } else {
        match (a, b) {
            (Value::Undefined, Value::Null) => true,
            (Value::Null, Value::Undefined) => true,
            (Value::Undefined, _) => false,
            (_, Value::Undefined) => false,
            (Value::Null, _) => false,
            (_, Value::Null) => false,
            (Value::Object(_), _) => false,
            (_, Value::Object(_)) => false,
            (Value::String(_), Value::String(_)) => false,
            _ => numeric_form(a) is Some && numeric_form(a) == numeric_form(b),
        }
    }
}

/// `==` in a file of `version`: up to version 4 both operands are taken as
/// numbers, and equal only when both are numbers and the same one; from
/// version 5 see `loosely_equal`.
pub open spec fn equals_spec(version: u8, a: Value, b: Value) -> bool {
    if version <= LAST_NUMERIC_ONLY_VERSION {
        numeric_form(a) is Some && numeric_form(a) == numeric_form(b)
    } else {
        loosely_equal(a, b)
    }
}

/// Whether `a` comes before `b` in character-code order.
pub open spec fn text_less(a: Seq<char>, b: Seq<char>) -> bool
    decreases a.len(),
{
    if b.len() == 0 {
        false
    } else if a.len() == 0 {
        true
    } else if a[0] != b[0] {
        (a[0] as u32) < (b[0] as u32)
    } else {
        text_less(a.drop_first(), b.drop_first())
    }
}

/// `<` in a file of `version`. From version 5 two texts compare by
/// character codes. Otherwise, and always up to version 4, both operands are
/// taken as numbers, and one that is not a number gives `undefined`.
pub open spec fn less_than_spec(version: u8, a: Value, b: Value) -> Value {
    if version > LAST_NUMERIC_ONLY_VERSION && a is String && b is String {
        Value::Bool(text_less(a->String_0@, b->String_0@))
    } else {
        match (numeric_form(a), numeric_form(b)) {
            (Some(x), Some(y)) => Value::Bool(x < y),
            _ => Value::Undefined,
        }
    }
}

/// The name of a value's type, as `typeof` gives it.
pub open spec fn type_name_of(v: Value) -> Seq<char> {
    match v {
        Value::Undefined => "undefined"@,
        Value::Null => "null"@,
        Value::Bool(_) => "boolean"@,
        Value::Integer(_) => "number"@,
        Value::String(_) => "string"@,
        Value::Object(_) => "object"@,
    }
}

fn numeric(v: &Value) -> (r: Option<i32>)
    ensures
        match r {
            Some(n) => numeric_form(*v) == Some(n as int),
            None => numeric_form(*v) is None,
        },
{
    match v {
        Value::Null => Some(0),
        Value::Bool(b) => {
            if *b {
                Some(1)
            } else {
                Some(0)
            }
        },
        Value::Integer(i) => Some(*i),
        Value::String(s) => parse_integer(s.as_str()),
        _ => None,
    }
}

/// `===` (see `strictly_equal`).
pub fn strict_equals(a: &Value, b: &Value) -> (r: bool)
    ensures
        r == strictly_equal(*a, *b),
{
    match (a, b) {
        (Value::Undefined, Value::Undefined) => true,
        (Value::Null, Value::Null) => true,
        (Value::Bool(x), Value::Bool(y)) => *x == *y,
        (Value::Integer(x), Value::Integer(y)) => *x == *y,
        (Value::String(x), Value::String(y)) => *x == *y,
        (Value::Object(x), Value::Object(y)) => x.0 == y.0,
        _ => false,
    }
}

/// `==` in a file of `version` (see `equals_spec`).
pub fn equals(version: u8, a: &Value, b: &Value) -> (r: bool)
    ensures
        r == equals_spec(version, *a, *b),
{
    if version <= LAST_NUMERIC_ONLY_VERSION {
        return match (numeric(a), numeric(b)) {
            (Some(x), Some(y)) => x == y,
            _ => false,
        };
    }
    if strict_equals(a, b) {
        return true;
    }
    match (a, b) {
        (Value::Undefined, Value::Null) => true,
        (Value::Null, Value::Undefined) => true,
        (Value::Undefined, _) => false,
        (_, Value::Undefined) => false,
        (Value::Null, _) => false,
        (_, Value::Null) => false,
        (Value::Object(_), _) => false,
        (_, Value::Object(_)) => false,
        (Value::String(_), Value::String(_)) => false,
        _ => match (numeric(a), numeric(b)) {
            (Some(x), Some(y)) => x == y,
            _ => false,
        },
    }
}

fn text_precedes(a: &str, b: &str) -> (r: bool)
    ensures
        r == text_less(a@, b@),
{
    let n = a.unicode_len();
    let m = b.unicode_len();
    let mut i: usize = 0;
    assert(a@.subrange(0, n as int) =~= a@);
    assert(b@.subrange(0, m as int) =~= b@);
    while i < n && i < m
        invariant
            n == a@.len(),
            m == b@.len(),
            i <= n,
            i <= m,
            text_less(a@, b@) == text_less(a@.subrange(i as int, n as int), b@.subrange(i as int, m as int)),
        decreases n - i,
    {
        let x = a.get_char(i);
        let y = b.get_char(i);
        let ghost sa = a@.subrange(i as int, n as int);
        let ghost sb = b@.subrange(i as int, m as int);
        assert(sa[0] == x && sb[0] == y);
        if x != y {
            return (x as u32) < (y as u32);
        }
        assert(sa.drop_first() =~= a@.subrange(i as int + 1, n as int));
        assert(sb.drop_first() =~= b@.subrange(i as int + 1, m as int));
        i = i + 1;
    }
    i < m
}

/// `<` in a file of `version` (see `less_than_spec`).
pub fn less_than(version: u8, a: &Value, b: &Value) -> (r: Value)
    ensures
        r == less_than_spec(version, *a, *b),
{
    if version > LAST_NUMERIC_ONLY_VERSION {
        if let (Value::String(x), Value::String(y)) = (a, b) {
            return Value::Bool(text_precedes(x.as_str(), y.as_str()));
        }
    }
    match (numeric(a), numeric(b)) {
        (Some(x), Some(y)) => Value::Bool(x < y),
        _ => Value::Undefined,
    }
}

/// `>` in a file of `version`: `<` with the operands swapped.
pub fn greater_than(version: u8, a: &Value, b: &Value) -> (r: Value)
    ensures
        r == less_than_spec(version, *b, *a),
{
    less_than(version, b, a)
}

/// `typeof` (see `type_name_of`).
pub fn type_of(v: &Value) -> (r: String)
    ensures
        r@ == type_name_of(*v),
{
    match v {
        Value::Undefined => "undefined".to_owned(),
        Value::Null => "null".to_owned(),
        Value::Bool(_) => "boolean".to_owned(),
        Value::Integer(_) => "number".to_owned(),
        Value::String(_) => "string".to_owned(),
        Value::Object(_) => "object".to_owned(),
    }
}

} // verus!
