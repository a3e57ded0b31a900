use ruffle_vm::class::{Method, NativeMethod, Namespace, QName, Trait, TraitKind, Class, ClassError};
use ruffle_vm::coerce::CoerceError;
use ruffle_vm::dispatch::{DispatchList, EventPhase};
use ruffle_vm::event_dispatcher::{
    add_event_listener, class_init, create_class, has_event_listener, instance_init, remove_event_listener,
    Error, EventDispatcherObject,
};
use ruffle_vm::event_flow::{event_flow, next_invocation, Invocation, Propagation};
use ruffle_vm::value::{ObjectId, Value};

const A: ObjectId = ObjectId(1);
const B: ObjectId = ObjectId(2);
const C: ObjectId = ObjectId(3);

fn text(s: &str) -> Value {
    Value::String(s.to_string())
}

#[test]
fn add_add_remove_leaves_no_registration() {
    let mut d = DispatchList::new();
    d.add_event_listener("click", 0, A, false);
    d.add_event_listener("click", 5, A, false);
    d.remove_event_listener("click", A, false);
    assert!(!d.has_event_listener("click"));
    assert!(d.listeners_for("click", EventPhase::AtTarget).is_empty());
}

#[test]
fn listeners_come_by_priority_then_insertion() {
    let mut d = DispatchList::new();
    d.add_event_listener("e", 1, A, false);
    d.add_event_listener("e", 3, B, false);
    d.add_event_listener("e", 1, C, false);
    d.add_event_listener("e", 2, ObjectId(4), false);
    assert_eq!(d.listeners_for("e", EventPhase::Bubbling), vec![B, ObjectId(4), A, C]);
}

#[test]
fn re_adding_at_same_priority_keeps_place() {
    let mut d = DispatchList::new();
    d.add_event_listener("e", 0, A, false);
    d.add_event_listener("e", 0, B, false);
    d.add_event_listener("e", 0, A, false);
    assert_eq!(d.listeners_for("e", EventPhase::AtTarget), vec![A, B]);
    d.add_event_listener("e", 9, B, false);
    assert_eq!(d.listeners_for("e", EventPhase::AtTarget), vec![B, A]);
}

#[test]
fn capture_flag_separates_registrations() {
    let mut d = DispatchList::new();
    d.add_event_listener("e", 0, A, true);
    d.add_event_listener("e", 0, A, false);
    assert_eq!(d.listeners_for("e", EventPhase::Capturing), vec![A]);
    assert_eq!(d.listeners_for("e", EventPhase::Bubbling), vec![A]);
    assert_eq!(d.listeners_for("e", EventPhase::AtTarget), vec![A, A]);
    d.remove_event_listener("e", A, true);
    assert!(d.listeners_for("e", EventPhase::Capturing).is_empty());
    assert!(d.has_event_listener("e"));
    assert!(!d.has_event_listener("E"));
    d.remove_event_listener("missing", B, false);
    assert!(d.has_event_listener("e"));
}

#[test]
fn event_dispatch_capture_bubble() {
    let mut parent = DispatchList::new();
    parent.add_event_listener("evt", 0, C, false);
    let mut target = DispatchList::new();
    target.add_event_listener("evt", 0, A, true);
    target.add_event_listener("evt", 0, B, false);
    let path = vec![parent, target];
    let plan = event_flow(&path, "evt", true);
    let order: Vec<ObjectId> = plan.iter().map(|i| i.listener).collect();
    assert_eq!(order, vec![A, B, C]);
    assert_eq!(plan[0], Invocation { node: 1, phase: EventPhase::AtTarget, listener: A });
    assert_eq!(plan[2], Invocation { node: 0, phase: EventPhase::Bubbling, listener: C });
    let quiet = event_flow(&path, "evt", false);
    assert_eq!(quiet.len(), 2);
}

#[test]
fn capture_runs_root_first_and_bubble_runs_root_last() {
    let mut root = DispatchList::new();
    root.add_event_listener("e", 0, ObjectId(10), true);
    root.add_event_listener("e", 0, ObjectId(11), false);
    let mut mid = DispatchList::new();
    mid.add_event_listener("e", 0, ObjectId(20), true);
    mid.add_event_listener("e", 0, ObjectId(21), false);
    let mut target = DispatchList::new();
    target.add_event_listener("e", 0, ObjectId(30), false);
    let plan = event_flow(&vec![root, mid, target], "e", true);
    let order: Vec<usize> = plan.iter().map(|i| i.listener.0).collect();
    assert_eq!(order, vec![10, 20, 30, 21, 11]);
    assert!(event_flow(&vec![], "e", true).is_empty());
}

#[test]
fn stop_immediate_propagation_ends_the_flow() {
    let mut target = DispatchList::new();
    target.add_event_listener("e", 0, A, false);
    target.add_event_listener("e", 0, B, false);
    let mut parent = DispatchList::new();
    parent.add_event_listener("e", 0, C, false);
    let plan = event_flow(&vec![parent, target], "e", true);
    assert_eq!(next_invocation(&plan, 0, Propagation::StopImmediatePropagation), None);
    assert_eq!(next_invocation(&plan, 0, Propagation::StopPropagation), Some(1));
    assert_eq!(next_invocation(&plan, 1, Propagation::StopPropagation), None);
    assert_eq!(next_invocation(&plan, 1, Propagation::Continue), Some(2));
    assert_eq!(next_invocation(&plan, 2, Propagation::Continue), None);
}

#[test]
fn builtins_register_through_arguments() {
    let mut this = Some(EventDispatcherObject { target: Value::Undefined, dispatch_list: None });
    assert_eq!(
        add_event_listener(&mut this, &[text("e"), Value::Object(A)]),
        Err(Error::MissingDispatchList)
    );
    assert_eq!(instance_init(&mut this, &[]), Ok(Value::Undefined));
    assert_eq!(this.as_ref().unwrap().target, Value::Null);
    assert_eq!(has_event_listener(&this, &[text("e")]), Ok(Value::Bool(false)));
    assert_eq!(
        add_event_listener(&mut this, &[text("e"), Value::Object(A), Value::Bool(true), text("7")]),
        Ok(Value::Undefined)
    );
    assert_eq!(has_event_listener(&this, &[text("e")]), Ok(Value::Bool(true)));
    let list = this.as_ref().unwrap().dispatch_list.as_ref().unwrap();
    assert_eq!(list.listeners_for("e", EventPhase::Capturing), vec![A]);
    assert_eq!(remove_event_listener(&mut this, &[text("e"), Value::Object(A)]), Ok(Value::Undefined));
    assert_eq!(has_event_listener(&this, &[text("e")]), Ok(Value::Bool(true)));
    assert_eq!(
        remove_event_listener(&mut this, &[text("e"), Value::Object(A), Value::Integer(1)]),
        Ok(Value::Undefined)
    );
    assert_eq!(has_event_listener(&this, &[text("e")]), Ok(Value::Bool(false)));
    assert_eq!(class_init(&this, &[]), Ok(Value::Undefined));
}

#[test]
fn builtins_report_coercion_errors() {
    let mut this = Some(EventDispatcherObject { target: Value::Undefined, dispatch_list: None });
    instance_init(&mut this, &[Value::Object(C)]).unwrap();
    assert_eq!(this.as_ref().unwrap().target, Value::Object(C));
    assert_eq!(
        add_event_listener(&mut this, &[text("e")]),
        Err(Error::Coerce(CoerceError::NotAnObject))
    );
    assert_eq!(
        add_event_listener(&mut this, &[Value::Object(A), Value::Object(A)]),
        Err(Error::Coerce(CoerceError::NeedsPrimitive))
    );
    assert_eq!(
        add_event_listener(&mut this, &[text("e"), Value::Object(A), Value::Bool(false), Value::Object(B)]),
        Err(Error::Coerce(CoerceError::NeedsPrimitive))
    );
    assert_eq!(has_event_listener(&this, &[text("e")]), Ok(Value::Bool(false)));
    let mut nobody: Option<EventDispatcherObject> = None;
    assert_eq!(add_event_listener(&mut nobody, &[]), Ok(Value::Undefined));
    assert_eq!(has_event_listener(&nobody, &[]), Ok(Value::Undefined));
}

#[test]
fn integer_event_types_are_written_in_decimal() {
    let mut this = Some(EventDispatcherObject { target: Value::Undefined, dispatch_list: None });
    instance_init(&mut this, &[]).unwrap();
    add_event_listener(&mut this, &[Value::Integer(-42), Value::Object(A)]).unwrap();
    assert_eq!(has_event_listener(&this, &[text("-42")]), Ok(Value::Bool(true)));
    add_event_listener(&mut this, &[Value::Undefined, Value::Object(B)]).unwrap();
    assert_eq!(has_event_listener(&this, &[text("undefined")]), Ok(Value::Bool(true)));
}

#[test]
fn event_dispatcher_class_shape() {
    let class = create_class();
    assert_eq!(class.name().local_name, "EventDispatcher");
    assert!(class.name().ns.same_as(&Namespace::package("flash.events")));
    assert!(class.implements_interface(&QName::new(Namespace::package("flash.events"), "IEventDispatcher")));
    assert_eq!(class.instance_traits().len(), 5);
    assert!(class.has_instance_trait(&QName::new(Namespace::public_namespace(), "hasEventListener")));
    assert!(class.has_instance_trait(&QName::new(Namespace::ruffle_private("EventDispatcher"), "dispatch_list")));
    assert!(!class.has_instance_trait(&QName::new(Namespace::public_namespace(), "dispatch_list")));
    assert_eq!(class.instance_init(), Method::Native(NativeMethod::EventDispatcherInit));
    match &class.instance_traits()[0].kind {
        TraitKind::Method(m) => assert_eq!(*m, Method::Native(NativeMethod::AddEventListener)),
        _ => panic!("addEventListener is not a method"),
    }
    assert_eq!(class.super_class_name().as_ref().unwrap().local_name, "Object");
}

#[test]
fn duplicate_traits_are_refused() {
    let mut class = Class::new(
        QName::new(Namespace::public_namespace(), "K"),
        None,
        Method::from_builtin(NativeMethod::EventDispatcherInit),
        Method::from_builtin(NativeMethod::EventDispatcherClassInit),
    );
    let m = || Trait::from_method(QName::new(Namespace::public_namespace(), "m"), Method::Native(NativeMethod::HasEventListener));
    assert_eq!(class.define_instance_trait(m()), Ok(()));
    assert_eq!(class.define_instance_trait(m()), Err(ClassError::DuplicateTrait));
    assert_eq!(class.define_class_trait(m()), Ok(()));
    assert_eq!(class.define_class_trait(m()), Err(ClassError::DuplicateTrait));
    class.implements(QName::new(Namespace::Internal, "I"));
    class.implements(QName::new(Namespace::Internal, "I"));
    assert!(class.implements_interface(&QName::new(Namespace::Internal, "I")));
    assert!(!class.implements_interface(&QName::new(Namespace::Private, "I")));
    assert_eq!(class.class_traits().len(), 1);
}
