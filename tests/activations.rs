use ruffle_vm::activation::{Activation, SwfSlice};
use ruffle_vm::avm::{with_avm, Avm1};
use ruffle_vm::heap::{Heap, ScopeKind};
use ruffle_vm::ops::type_of;
use ruffle_vm::value::Value;
use std::sync::Arc;

fn slice_of(bytes: Vec<u8>) -> SwfSlice {
    let n = bytes.len();
    SwfSlice { data: Arc::new(bytes), start: 0, end: n }
}

#[test]
fn from_action_and_from_function_differ_in_implicit_return() {
    let mut heap = Heap::new();
    let globals = heap.new_object(None);
    let g = heap.new_global_scope(globals);
    let a = Activation::from_action(6, slice_of(vec![1, 2]), g, globals, None);
    let f = Activation::from_function(6, slice_of(vec![1, 2]), g, globals, None);
    assert!(!a.can_implicit_return());
    assert!(f.can_implicit_return());
    assert_eq!(a.pc(), 0);
    assert_eq!(f.swf_version(), 6);
    assert!(!a.has_local_registers());
}

#[test]
fn rescope_keeps_this_arguments_and_registers() {
    let mut heap = Heap::new();
    let globals = heap.new_object(None);
    let args = heap.new_object(None);
    let g = heap.new_global_scope(globals);
    let mut f = Activation::from_function(7, slice_of(vec![0; 8]), g, globals, Some(args));
    f.allocate_local_registers(3, &mut heap);
    f.set_pc(5);
    let w = heap.new_with_scope(g, args);
    let child = f.to_rescope(slice_of(vec![9]), w);
    assert_eq!(child.pc(), 0);
    assert!(!child.can_implicit_return());
    assert_eq!(child.this_cell(), globals);
    assert_eq!(child.resolve("arguments", &heap), Value::Object(args));
    assert!(child.has_local_registers());
    assert_eq!(child.scope_cell(), w);
    assert_eq!(child.swf_version(), 7);
    child.set_local_register(1, Value::Integer(42), &mut heap);
    assert_eq!(f.local_register(1, &heap), Value::Integer(42));
}

#[test]
fn identical_fn_means_same_buffer() {
    let mut heap = Heap::new();
    let globals = heap.new_object(None);
    let g = heap.new_global_scope(globals);
    let code = slice_of(vec![1, 2, 3]);
    let a = Activation::from_function(7, code.share(), g, globals, None);
    assert!(a.is_identical_fn(&a.data()));
    assert!(a.is_identical_fn(&SwfSlice { data: code.data.clone(), start: 1, end: 2 }));
    assert!(!a.is_identical_fn(&slice_of(vec![1, 2, 3])));
}

#[test]
fn register_underflow() {
    let mut heap = Heap::new();
    let globals = heap.new_object(None);
    let g = heap.new_global_scope(globals);
    let mut f = Activation::from_function(7, slice_of(vec![]), g, globals, None);
    assert_eq!(f.local_register(7, &heap), Value::Undefined);
    f.allocate_local_registers(2, &mut heap);
    f.set_local_register(7, Value::Integer(1), &mut heap);
    let r7 = f.local_register(7, &heap);
    assert_eq!(r7, Value::Undefined);
    assert_eq!(type_of(&r7), "undefined");
    assert_eq!(f.local_register(0, &heap), Value::Undefined);
    assert_eq!(f.local_register(1, &heap), Value::Undefined);
}

#[test]
fn resolve_this_and_arguments_shortcuts() {
    let mut heap = Heap::new();
    let globals = heap.new_object(None);
    let g = heap.new_global_scope(globals);
    let me = heap.new_object(None);
    heap.put_property(globals, 7, "arguments", Value::Integer(3));
    let a = Activation::from_action(7, slice_of(vec![]), g, me, None);
    assert_eq!(a.resolve("this", &heap), Value::Object(me));
    assert!(a.is_defined("this", &heap));
    assert_eq!(a.resolve("arguments", &heap), Value::Integer(3));
    assert!(!a.is_defined("nothing", &heap));
    a.define("v", Value::Bool(true), &mut heap);
    assert_eq!(a.resolve("v", &heap), Value::Bool(true));
    assert_eq!(a.scope(&heap).kind, ScopeKind::Global);
}

#[test]
fn from_nothing_builds_local_over_global() {
    let mut heap = Heap::new();
    let globals = heap.new_object(None);
    let a = Activation::from_nothing(5, globals, &mut heap);
    let s = a.scope(&heap);
    assert_eq!(s.kind, ScopeKind::Local);
    let parent = heap.scope(s.parent.unwrap());
    assert_eq!(parent.kind, ScopeKind::Global);
    assert_eq!(parent.binding, globals);
    assert_eq!(a.this_cell(), globals);
    assert_eq!(a.data().end, 0);
    a.define("x", Value::Integer(1), &mut heap);
    assert!(!heap.has_own_property(globals, 5, "x"));
    assert!(heap.has_own_property(s.binding, 5, "x"));
}

#[test]
fn set_data_and_scope_replace_fields() {
    let mut heap = Heap::new();
    let globals = heap.new_object(None);
    let g = heap.new_global_scope(globals);
    let l = heap.new_local_scope(g);
    let mut a = Activation::from_action(7, slice_of(vec![1]), g, globals, None);
    a.set_data(slice_of(vec![1, 2, 3, 4]));
    a.set_scope(l);
    assert_eq!(a.data().end, 4);
    assert_eq!(a.scope_cell(), l);
}

#[test]
fn with_avm_prepares_one_frame() {
    let depth = with_avm(7, |mut avm: Avm1, this| {
        assert!(!avm.heap.has_own_property(this, 7, "nothing"));
        assert_eq!(avm.heap.type_of(&Value::Object(this)), "movieclip");
        let frame = avm.current_stack_frame().unwrap();
        assert_eq!(frame.this_cell(), avm.global_object_cell());
        assert_eq!(frame.swf_version(), 7);
        avm.trace("hello".to_string());
        assert_eq!(avm.trace_output(), &vec!["hello".to_string()]);
        let popped = avm.retire_stack_frame();
        assert!(popped.is_some());
        assert!(avm.retire_stack_frame().is_none());
        avm.stack_depth()
    });
    assert_eq!(depth, 0);
}

#[test]
fn special_names_ignore_case_before_version_seven() {
    let mut heap = Heap::new();
    let globals = heap.new_object(None);
    let g = heap.new_global_scope(globals);
    let me = heap.new_object(None);
    let args = heap.new_object(None);
    let old = Activation::from_function(6, slice_of(vec![]), g, me, Some(args));
    assert_eq!(old.resolve("THIS", &heap), Value::Object(me));
    assert_eq!(old.resolve("Arguments", &heap), Value::Object(args));
    assert!(old.is_defined("tHiS", &heap));
    let new = Activation::from_function(7, slice_of(vec![]), g, me, Some(args));
    assert_eq!(new.resolve("THIS", &heap), Value::Undefined);
    assert_eq!(new.resolve("Arguments", &heap), Value::Undefined);
    assert!(!new.is_defined("tHiS", &heap));
    assert_eq!(new.resolve("this", &heap), Value::Object(me));
}
