use ruffle_vm::heap::{Heap, ScopeKind};
use ruffle_vm::names::name_matches;
use ruffle_vm::registers::RegisterSet;
use ruffle_vm::value::Value;

fn text(s: &str) -> Value {
    Value::String(s.to_string())
}

#[test]
fn names_fold_ascii_case_up_to_version_six() {
    assert!(name_matches(6, "FooBar", "foobar"));
    assert!(name_matches(5, "ABC", "abc"));
    assert!(!name_matches(7, "FooBar", "foobar"));
    assert!(name_matches(7, "foobar", "foobar"));
    assert!(!name_matches(6, "foo", "fooo"));
    assert!(!name_matches(6, "a_b", "a-b"));
}

#[test]
fn register_set_reads_and_writes_in_range_only() {
    let mut regs = RegisterSet::new(2);
    assert_eq!(regs.len(), 2);
    assert_eq!(regs.get(0), Some(&Value::Undefined));
    assert_eq!(regs.get(1), Some(&Value::Undefined));
    assert_eq!(regs.get(2), None);
    assert!(regs.set(1, Value::Integer(5)));
    assert_eq!(regs.get(1), Some(&Value::Integer(5)));
    assert!(!regs.set(7, Value::Integer(9)));
    assert_eq!(regs.get(7), None);
    assert_eq!(regs.get(0), Some(&Value::Undefined));
}

#[test]
fn register_set_beyond_inline_capacity() {
    let mut regs = RegisterSet::new(255);
    assert_eq!(regs.len(), 255);
    assert!(regs.set(254, Value::Bool(true)));
    assert_eq!(regs.get(254), Some(&Value::Bool(true)));
    assert_eq!(regs.get(255), None);
    let empty = RegisterSet::new(0);
    assert_eq!(empty.get(0), None);
}

#[test]
fn resolution_ignores_case_before_version_seven() {
    let mut heap = Heap::new();
    let globals = heap.new_object(None);
    let g = heap.new_global_scope(globals);
    heap.put_property(globals, 6, "Score", Value::Integer(3));
    assert_eq!(heap.resolve(g, 6, "score"), Value::Integer(3));
    assert_eq!(heap.resolve(g, 6, "SCORE"), heap.resolve(g, 6, "Score"));
    assert_eq!(heap.resolve(g, 7, "score"), Value::Undefined);
    assert_eq!(heap.resolve(g, 7, "Score"), Value::Integer(3));
}

#[test]
fn distinct_names_are_independent_from_version_seven() {
    let mut heap = Heap::new();
    let globals = heap.new_object(None);
    let g = heap.new_global_scope(globals);
    heap.put_property(globals, 7, "a", Value::Integer(1));
    heap.put_property(globals, 7, "A", Value::Integer(2));
    assert_eq!(heap.resolve(g, 7, "a"), Value::Integer(1));
    assert_eq!(heap.resolve(g, 7, "A"), Value::Integer(2));
    assert_eq!(heap.enumerate(globals), vec!["a".to_string(), "A".to_string()]);
}

#[test]
fn define_lands_in_nearest_local_scope() {
    let mut heap = Heap::new();
    let globals = heap.new_object(None);
    let g = heap.new_global_scope(globals);
    let local = heap.new_local_scope(g);
    let with_obj = heap.new_object(None);
    let w = heap.new_with_scope(local, with_obj);
    assert_eq!(heap.scope(local).kind, ScopeKind::Local);
    heap.define(w, 7, "x", Value::Integer(4));
    let locals = heap.scope(local).binding;
    assert!(heap.has_own_property(locals, 7, "x"));
    assert!(!heap.has_own_property(with_obj, 7, "x"));
    assert!(!heap.has_own_property(globals, 7, "x"));
    assert_eq!(heap.resolve(w, 7, "x"), Value::Integer(4));
    assert!(heap.is_defined(w, 7, "x"));
    assert!(!heap.is_defined(g, 7, "x"));
}

#[test]
fn define_without_local_scope_lands_in_globals() {
    let mut heap = Heap::new();
    let globals = heap.new_object(None);
    let g = heap.new_global_scope(globals);
    let clip = heap.new_object(None);
    let t = heap.new_target_scope(g, clip);
    heap.define(t, 7, "y", text("v"));
    assert!(heap.has_own_property(globals, 7, "y"));
    assert!(!heap.has_own_property(clip, 7, "y"));
}

#[test]
fn set_variable_updates_existing_binding_or_globals() {
    let mut heap = Heap::new();
    let globals = heap.new_object(None);
    let g = heap.new_global_scope(globals);
    let local = heap.new_local_scope(g);
    heap.define(local, 7, "x", Value::Integer(1));
    heap.set_variable(local, 7, "x", Value::Integer(2));
    let locals = heap.scope(local).binding;
    assert_eq!(heap.get_property(locals, 7, "x"), Value::Integer(2));
    assert!(!heap.has_own_property(globals, 7, "x"));
    heap.set_variable(local, 7, "fresh", Value::Null);
    assert!(heap.has_own_property(globals, 7, "fresh"));
    assert!(!heap.has_own_property(locals, 7, "fresh"));
}

#[test]
fn has_own_property() {
    let mut heap = Heap::new();
    let proto = heap.new_object(None);
    heap.put_property(proto, 7, "y", Value::Integer(2));
    let o = heap.new_object(Some(proto));
    heap.put_property(o, 7, "x", Value::Integer(1));
    assert!(heap.has_own_property(o, 7, "x"));
    assert!(!heap.has_own_property(o, 7, "y"));
    assert_eq!(heap.get_property(o, 7, "y"), Value::Integer(2));
    assert!(heap.has_property(o, 7, "y"));
    assert_eq!(heap.get_property(o, 7, "z"), Value::Undefined);
}

#[test]
fn prototype_enumerate() {
    let mut heap = Heap::new();
    let proto = heap.new_object(None);
    heap.put_property(proto, 7, "f", Value::Integer(6));
    heap.put_property(proto, 7, "g", Value::Integer(7));
    let o = heap.new_object(Some(proto));
    for (i, name) in ["a", "b", "c", "d", "e"].iter().enumerate() {
        heap.put_property(o, 7, name, Value::Integer(i as i32));
    }
    let mut names = heap.enumerate(o);
    names.sort();
    assert_eq!(names, vec!["a", "b", "c", "d", "e"]);
}

#[test]
fn enumerate_skips_dont_enum_and_keeps_insertion_order() {
    let mut heap = Heap::new();
    let o = heap.new_object(None);
    heap.put_property(o, 7, "z", Value::Integer(1));
    heap.put_property(o, 7, "hidden", Value::Integer(2));
    heap.put_property(o, 7, "a", Value::Integer(3));
    assert!(heap.set_dont_enum(o, 7, "hidden", true));
    assert!(!heap.set_dont_enum(o, 7, "missing", true));
    assert_eq!(heap.enumerate(o), vec!["z".to_string(), "a".to_string()]);
    heap.put_property(o, 7, "z", Value::Integer(9));
    assert_eq!(heap.enumerate(o), vec!["z".to_string(), "a".to_string()]);
    assert_eq!(heap.get_property(o, 7, "z"), Value::Integer(9));
}

#[test]
fn own_property_shadows_prototype() {
    let mut heap = Heap::new();
    let proto = heap.new_object(None);
    heap.put_property(proto, 6, "k", Value::Integer(1));
    let o = heap.new_object(Some(proto));
    heap.put_property(o, 6, "K", Value::Integer(2));
    assert_eq!(heap.get_property(o, 6, "k"), Value::Integer(2));
    assert_eq!(heap.get_property(proto, 6, "k"), Value::Integer(1));
    assert_eq!(heap.lookup_value(o, 7, "k"), Some(Value::Integer(1)));
}

#[test]
fn heap_registers_are_shared_by_handle() {
    let mut heap = Heap::new();
    let r = heap.allocate_registers(2);
    heap.set_register(r, 1, Value::Bool(true));
    assert_eq!(heap.register(r, 1), Value::Bool(true));
    heap.set_register(r, 2, Value::Bool(true));
    assert_eq!(heap.register(r, 2), Value::Undefined);
    assert_eq!(heap.register(r, 0), Value::Undefined);
}

#[test]
fn typeof_tells_movie_clips_apart() {
    let mut heap = Heap::new();
    let plain = heap.new_object(None);
    let clip = heap.new_clip_object(None);
    assert_eq!(heap.type_of(&Value::Object(clip)), "movieclip");
    assert_eq!(heap.type_of(&Value::Object(plain)), "object");
    assert_eq!(heap.type_of(&Value::Null), "null");
    assert_eq!(heap.type_of(&Value::Integer(1)), "number");
}
