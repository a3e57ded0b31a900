use ruffle_vm::coerce::CoerceError;
use ruffle_vm::ops::{equals, greater_than, less_than, strict_equals, type_of};
use ruffle_vm::storage::DiskStorageBackend;
use ruffle_vm::value::{ObjectId, Value};

fn text(s: &str) -> Value {
    Value::String(s.to_string())
}

fn shown(v: &Value) -> String {
    v.coerce_to_string().unwrap()
}

#[test]
fn strictly_equals() {
    let a = text("1");
    let b = Value::Integer(1);
    let lines = vec![shown(&Value::Bool(strict_equals(&a, &b))), shown(&Value::Bool(equals(6, &a, &b)))];
    assert_eq!(lines.join("\n"), "false\ntrue");
}

#[test]
fn loose_equality_cases() {
    assert!(equals(7, &Value::Undefined, &Value::Null));
    assert!(!equals(7, &Value::Undefined, &Value::Integer(0)));
    assert!(equals(7, &Value::Bool(true), &Value::Integer(1)));
    assert!(equals(7, &text("-3"), &Value::Integer(-3)));
    assert!(!equals(7, &text("abc"), &Value::Integer(0)));
    assert!(!equals(7, &text("1"), &text("01")));
    assert!(equals(7, &Value::Object(ObjectId(2)), &Value::Object(ObjectId(2))));
    assert!(!equals(7, &Value::Object(ObjectId(2)), &Value::Integer(2)));
    assert!(strict_equals(&text("x"), &text("x")));
    assert!(!strict_equals(&Value::Null, &Value::Undefined));
}

#[test]
fn lessthan_swf4() {
    assert_eq!(shown(&less_than(4, &text("abc"), &text("abd"))), "undefined");
    assert_eq!(shown(&less_than(5, &text("abc"), &text("abd"))), "true");
    assert_eq!(less_than(5, &text("abd"), &text("abc")), Value::Bool(false));
    assert_eq!(less_than(5, &text("ab"), &text("abc")), Value::Bool(true));
    assert_eq!(less_than(5, &text("abc"), &text("abc")), Value::Bool(false));
    assert_eq!(less_than(4, &Value::Integer(1), &Value::Integer(2)), Value::Bool(true));
    assert_eq!(less_than(7, &Value::Integer(3), &text("2")), Value::Bool(false));
    assert_eq!(less_than(7, &Value::Undefined, &Value::Integer(2)), Value::Undefined);
    assert_eq!(less_than(7, &Value::Null, &Value::Bool(true)), Value::Bool(true));
    assert_eq!(less_than(4, &text("1"), &text("2")), Value::Bool(true));
    assert_eq!(less_than(5, &text("10"), &text("9")), Value::Bool(true));
    assert_eq!(less_than(4, &text("10"), &text("9")), Value::Bool(false));
    assert_eq!(greater_than(5, &text("abd"), &text("abc")), Value::Bool(true));
    assert_eq!(greater_than(4, &text("abd"), &text("abc")), Value::Undefined);
}

#[test]
fn equality_before_version_five_is_numeric() {
    assert!(equals(4, &text("1"), &Value::Integer(1)));
    assert!(!equals(4, &text("abc"), &text("abc")));
    assert!(!equals(4, &Value::Undefined, &Value::Null));
    assert!(equals(5, &text("abc"), &text("abc")));
    assert!(equals(5, &Value::Undefined, &Value::Null));
}

#[test]
fn typeof_names() {
    assert_eq!(type_of(&Value::Null), "null");
    assert_eq!(type_of(&Value::Undefined), "undefined");
    assert_eq!(type_of(&Value::Bool(false)), "boolean");
    assert_eq!(type_of(&Value::Integer(3)), "number");
    assert_eq!(type_of(&text("")), "string");
    assert_eq!(type_of(&Value::Object(ObjectId(0))), "object");
}

#[test]
fn coercions() {
    assert_eq!(Value::Integer(-120).coerce_to_string(), Ok("-120".to_string()));
    assert_eq!(Value::Integer(0).coerce_to_string(), Ok("0".to_string()));
    assert_eq!(Value::Null.coerce_to_string(), Ok("null".to_string()));
    assert_eq!(Value::Object(ObjectId(1)).coerce_to_string(), Err(CoerceError::NeedsPrimitive));
    assert_eq!(text("+15").coerce_to_i32(), Ok(15));
    assert_eq!(text("-2147483648").coerce_to_i32(), Ok(i32::MIN));
    assert_eq!(text("2147483648").coerce_to_i32(), Ok(0));
    assert_eq!(text(" 5").coerce_to_i32(), Ok(0));
    assert_eq!(Value::Bool(true).coerce_to_i32(), Ok(1));
    assert!(!text("").coerce_to_boolean());
    assert!(text("0").coerce_to_boolean());
    assert!(!Value::Integer(0).coerce_to_boolean());
    assert_eq!(Value::Integer(1).coerce_to_object(), Err(CoerceError::NotAnObject));
    assert_eq!(Value::Object(ObjectId(5)).coerce_to_object(), Ok(ObjectId(5)));
    assert_eq!(text("abc").duplicate(), text("abc"));
}

#[test]
fn storage_keys_live_under_the_base_directory() {
    let b = DiskStorageBackend::new();
    assert_eq!(b.base_path(), "/home/cub3d/.local/share/ruffle/");
    assert_eq!(b.key_path("scores"), "/home/cub3d/.local/share/ruffle/scores");
    let c = DiskStorageBackend::with_base_path("/tmp/x/".to_string());
    assert_eq!(c.key_path("k"), "/tmp/x/k");
}
