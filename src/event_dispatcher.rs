//! The `flash.events.EventDispatcher` class: its builtin methods and its
//! class descriptor.

use crate::class::{has_trait_named, ns_key, qname_key, Class, Method, NativeMethod, Namespace, QName, Trait, TraitKind};
use crate::coerce::{object_form, string_form, truth, i32_form, CoerceError};
use crate::dispatch::{added, removed, well_ordered, DispatchList, Registration};
use crate::value::{ObjectId, Value};
use vstd::prelude::*;

verus! {

/// The private state of an EventDispatcher instance: its event target and,
/// once constructed, its listener registry.
pub struct EventDispatcherObject {
    pub target: Value,
    pub dispatch_list: Option<DispatchList>,
}

/// Why a builtin failed.
#[derive(Clone, Copy, Debug, PartialEq, Eq, Structural)]
pub enum Error {
    /// An argument could not be coerced.
    Coerce(CoerceError),
    /// The instance was never constructed, so it has no listener registry.
    MissingDispatchList,
}

/// The registry of a dispatcher, when it has one, keeps its order.
pub open spec fn dispatcher_wf(this: Option<EventDispatcherObject>) -> bool {
    match this {
        Some(o) => match o.dispatch_list {
            Some(d) => well_ordered(d@),
            None => true,
        },
        None => true,
    }
}

/// `this` is an instance with target `target` whose registry holds `s`.
pub open spec fn holds_list(this: Option<EventDispatcherObject>, target: Value, s: Seq<Registration>) -> bool {
    match this {
        Some(n) => n.target == target && match n.dispatch_list {
            Some(d) => d@ == s,
            None => false,
        },
        None => false,
    }
}

/// Argument `i`, or `d` when there are fewer arguments.
pub open spec fn arg_or(args: Seq<Value>, i: int, d: Value) -> Value {
    if 0 <= i < args.len() {
        args[i]
    } else {
        d
    }
}

fn arg(args: &[Value], i: usize, d: Value) -> (r: Value)
    ensures
        r == arg_or(args@, i as int, d),
{
    if i < args.len() {
        args[i].duplicate()
    } else {
        d
    }
}

/// The event type and listener that the arguments name, coerced in order.
pub open spec fn type_and_listener(args: Seq<Value>) -> Result<(Seq<char>, ObjectId), Error> {
    match string_form(arg_or(args, 0, Value::Undefined)) {
        Err(e) => Err(Error::Coerce(e)),
        Ok(t) => match object_form(arg_or(args, 1, Value::Undefined)) {
            Err(e) => Err(Error::Coerce(e)),
            Ok(l) => Ok((t, l)),
        },
    }
}

/// What `addEventListener` is asked for: event type, listener, capture flag
/// (default false) and priority (default 0).
pub open spec fn add_request(args: Seq<Value>) -> Result<(Seq<char>, ObjectId, bool, i32), Error> {
    match type_and_listener(args) {
        Err(e) => Err(e),
        Ok((t, l)) => {
            let c = truth(arg_or(args, 2, Value::Bool(false)));
            match i32_form(arg_or(args, 3, Value::Integer(0))) {
                Err(e) => Err(Error::Coerce(e)),
                Ok(p) => Ok((t, l, c, p)),
            }
        },
    }
}

/// What `removeEventListener` is asked for: event type, listener and capture
/// flag (default false).
pub open spec fn remove_request(args: Seq<Value>) -> Result<(Seq<char>, ObjectId, bool), Error> {
    match type_and_listener(args) {
        Err(e) => Err(e),
        Ok((t, l)) => Ok((t, l, truth(arg_or(args, 2, Value::Bool(false))))),
    }
}

fn event_type_and_listener(args: &[Value]) -> (r: Result<(String, ObjectId), Error>)
    ensures
        match r {
            Ok((t, l)) => type_and_listener(args@) == Ok::<(Seq<char>, ObjectId), Error>((t@, l)),
            Err(e) => type_and_listener(args@) == Err::<(Seq<char>, ObjectId), Error>(e),
        },
{
    let event_type = match arg(args, 0, Value::Undefined).coerce_to_string() {
        Ok(s) => s,
        Err(e) => {
            return Err(Error::Coerce(e));
        },
    };
    let listener = match arg(args, 1, Value::Undefined).coerce_to_object() {
        Ok(o) => o,
        Err(e) => {
            return Err(Error::Coerce(e));
        },
    };
    Ok((event_type, listener))
}

/// The instance constructor: records the target (the first argument, null
/// when there is none) and gives the instance an empty listener registry.
pub fn instance_init(this: &mut Option<EventDispatcherObject>, args: &[Value]) -> (r: Result<Value, Error>)
    ensures
        r == Ok::<Value, Error>(Value::Undefined),
        dispatcher_wf(*final(this)),
        (*old(this)) is None ==> (*final(this)) is None,
        (*old(this)) is Some ==> holds_list(*final(this), arg_or(args@, 0, Value::Null), Seq::empty()),
{
    match this {
        Some(o) => {
            o.target = arg(args, 0, Value::Null);
            o.dispatch_list = Some(DispatchList::new());
        },
        None => {},
    }
    Ok(Value::Undefined)
}

/// `addEventListener(type, listener, useCapture = false, priority = 0)`.
pub fn add_event_listener(this: &mut Option<EventDispatcherObject>, args: &[Value]) -> (r: Result<Value, Error>)
    requires
        dispatcher_wf(*old(this)),
    ensures
        dispatcher_wf(*final(this)),
        match *old(this) {
            None => r == Ok::<Value, Error>(Value::Undefined) && (*final(this)) is None,
            Some(o) => match o.dispatch_list {
                None => r == Err::<Value, Error>(Error::MissingDispatchList) && *final(this) == *old(this),
                Some(d) => match add_request(args@) {
                    Err(e) => r == Err::<Value, Error>(e) && *final(this) == *old(this),
                    Ok((t, l, c, p)) => r == Ok::<Value, Error>(Value::Undefined) && holds_list(
                        *final(this),
                        o.target,
                        added(d@, t, l, c, p),
                    ),
                },
            },
        },
{
    match this {
        None => Ok(Value::Undefined),
        Some(o) => match &mut o.dispatch_list {
            None => Err(Error::MissingDispatchList),
            Some(list) => {
                let (event_type, listener) = match event_type_and_listener(args) {
                    Ok(x) => x,
                    Err(e) => {
                        return Err(e);
                    },
                };
                let use_capture = arg(args, 2, Value::Bool(false)).coerce_to_boolean();
                let priority = match arg(args, 3, Value::Integer(0)).coerce_to_i32() {
                    Ok(p) => p,
                    Err(e) => {
                        return Err(Error::Coerce(e));
                    },
                };
                list.add_event_listener(event_type.as_str(), priority, listener, use_capture);
                Ok(Value::Undefined)
            },
        },
    }
}

/// `removeEventListener(type, listener, useCapture = false)`.
pub fn remove_event_listener(this: &mut Option<EventDispatcherObject>, args: &[Value]) -> (r: Result<Value, Error>)
    requires
        dispatcher_wf(*old(this)),
    ensures
        dispatcher_wf(*final(this)),
        match *old(this) {
            None => r == Ok::<Value, Error>(Value::Undefined) && (*final(this)) is None,
            Some(o) => match o.dispatch_list {
                None => r == Err::<Value, Error>(Error::MissingDispatchList) && *final(this) == *old(this),
                Some(d) => match remove_request(args@) {
                    Err(e) => r == Err::<Value, Error>(e) && *final(this) == *old(this),
                    Ok((t, l, c)) => r == Ok::<Value, Error>(Value::Undefined) && holds_list(
                        *final(this),
                        o.target,
                        removed(d@, t, l, c),
                    ),
                },
            },
        },
{
    match this {
        None => Ok(Value::Undefined),
        Some(o) => match &mut o.dispatch_list {
            None => Err(Error::MissingDispatchList),
            Some(list) => {
                let (event_type, listener) = match event_type_and_listener(args) {
                    Ok(x) => x,
                    Err(e) => {
                        return Err(e);
                    },
                };
                let use_capture = arg(args, 2, Value::Bool(false)).coerce_to_boolean();
                list.remove_event_listener(event_type.as_str(), listener, use_capture);
                Ok(Value::Undefined)
            },
        },
    }
}

/// `hasEventListener(type)`: whether any listener, capturing or not, is
/// registered for the type.
pub fn has_event_listener(this: &Option<EventDispatcherObject>, args: &[Value]) -> (r: Result<Value, Error>)
    ensures
        match *this {
            None => r == Ok::<Value, Error>(Value::Undefined),
            Some(o) => match o.dispatch_list {
                None => r == Err::<Value, Error>(Error::MissingDispatchList),
                Some(d) => match string_form(arg_or(args@, 0, Value::Undefined)) {
                    Err(e) => r == Err::<Value, Error>(Error::Coerce(e)),
                    Ok(t) => r == Ok::<Value, Error>(
                        Value::Bool(exists|i: int| 0 <= i < d@.len() && (#[trigger] d@[i]).event_type == t),
                    ),
                },
            },
        },
{
    match this {
        None => Ok(Value::Undefined),
        Some(o) => match &o.dispatch_list {
            None => Err(Error::MissingDispatchList),
            Some(list) => {
                let event_type = match arg(args, 0, Value::Undefined).coerce_to_string() {
                    Ok(s) => s,
                    Err(e) => {
                        return Err(Error::Coerce(e));
                    },
                };
                Ok(Value::Bool(list.has_event_listener(event_type.as_str())))
            },
        },
    }
}

/// The class constructor, which does nothing.
pub fn class_init(this: &Option<EventDispatcherObject>, args: &[Value]) -> (r: Result<Value, Error>)
    ensures
        r == Ok::<Value, Error>(Value::Undefined),
{
    Ok(Value::Undefined)
}

/// Whether trait `t` is method `m` named `local` in the public namespace.
pub open spec fn is_public_method(t: Trait, local: Seq<char>, m: NativeMethod) -> bool {
    qname_key(t.name) == ((0u8, Seq::<char>::empty()), local) && t.kind == TraitKind::Method(
        Method::Native(m),
    )
}

/// Whether trait `t` is an untyped-object slot named `local` in the
/// dispatcher's private namespace, with no default value.
pub open spec fn is_private_slot(t: Trait, local: Seq<char>) -> bool {
    qname_key(t.name) == ((7u8, "EventDispatcher"@), local) && match t.kind {
        TraitKind::Slot { slot_type, default_value } => qname_key(slot_type) == ((7u8, ""@), "BareObject"@)
            && default_value is None,
        _ => false,
    }
}

/// The class descriptor of `flash.events.EventDispatcher`: a subclass of
/// `Object` that implements `IEventDispatcher`, with the three listener
/// methods and two private slots, the event target and the registry.
pub fn create_class() -> (r: Class)
    ensures
        qname_key(r@.name) == ((1u8, "flash.events"@), "EventDispatcher"@),
        r@.super_class matches Some(s) && qname_key(s) == ((0u8, Seq::<char>::empty()), "Object"@),
        r@.instance_init == Method::Native(NativeMethod::EventDispatcherInit),
        r@.class_init == Method::Native(NativeMethod::EventDispatcherClassInit),
        r@.interfaces.len() == 1,
        qname_key(r@.interfaces[0]) == ((1u8, "flash.events"@), "IEventDispatcher"@),
        r@.class_traits.len() == 0,
        r@.instance_traits.len() == 5,
        is_public_method(r@.instance_traits[0], "addEventListener"@, NativeMethod::AddEventListener),
        is_public_method(r@.instance_traits[1], "removeEventListener"@, NativeMethod::RemoveEventListener),
        is_public_method(r@.instance_traits[2], "hasEventListener"@, NativeMethod::HasEventListener),
        is_private_slot(r@.instance_traits[3], "target"@),
        is_private_slot(r@.instance_traits[4], "dispatch_list"@),
{
    proof {
        reveal_strlit("addEventListener");
        reveal_strlit("removeEventListener");
        reveal_strlit("hasEventListener");
        reveal_strlit("target");
        reveal_strlit("dispatch_list");
    }
    let mut class = Class::new(
        QName::new(Namespace::package("flash.events"), "EventDispatcher"),
        Some(QName::new(Namespace::public_namespace(), "Object")),
        Method::from_builtin(NativeMethod::EventDispatcherInit),
        Method::from_builtin(NativeMethod::EventDispatcherClassInit),
    );
    class.implements(QName::new(Namespace::package("flash.events"), "IEventDispatcher"));
    let t0 = Trait::from_method(
        QName::new(Namespace::public_namespace(), "addEventListener"),
        Method::from_builtin(NativeMethod::AddEventListener),
    );
    let _ = class.define_instance_trait(t0);
    let t1 = Trait::from_method(
        QName::new(Namespace::public_namespace(), "removeEventListener"),
        Method::from_builtin(NativeMethod::RemoveEventListener),
    );
    let ghost s1 = class@.instance_traits;
    assert(!has_trait_named(s1, t1.name)) by {
        assert(s1.len() == 1);
        assert(s1[0].name.local_name@.len() != t1.name.local_name@.len());
    };
    let _ = class.define_instance_trait(t1);
    let t2 = Trait::from_method(
        QName::new(Namespace::public_namespace(), "hasEventListener"),
        Method::from_builtin(NativeMethod::HasEventListener),
    );
    let ghost s2 = class@.instance_traits;
    assert(!has_trait_named(s2, t2.name)) by {
        assert(s2.len() == 2);
        assert(s2[0].name.local_name@[0] != t2.name.local_name@[0]);
        assert(s2[1].name.local_name@.len() != t2.name.local_name@.len());
    };
    let _ = class.define_instance_trait(t2);
    let t3 = Trait::from_slot(
        QName::new(Namespace::ruffle_private("EventDispatcher"), "target"),
        QName::new(Namespace::ruffle_private(""), "BareObject"),
        None,
    );
    let ghost s3 = class@.instance_traits;
    assert(!has_trait_named(s3, t3.name)) by {
        assert(s3.len() == 3);
        assert forall|i: int| 0 <= i < 3 implies ns_key(s3[i].name.ns).0 != ns_key(t3.name.ns).0 by {}
    };
    let _ = class.define_instance_trait(t3);
    let t4 = Trait::from_slot(
        QName::new(Namespace::ruffle_private("EventDispatcher"), "dispatch_list"),
        QName::new(Namespace::ruffle_private(""), "BareObject"),
        None,
    );
    let ghost s4 = class@.instance_traits;
    assert(!has_trait_named(s4, t4.name)) by {
        assert(s4.len() == 4);
        assert forall|i: int| 0 <= i < 3 implies ns_key(s4[i].name.ns).0 != ns_key(t4.name.ns).0 by {}
        assert(s4[3].name.local_name@.len() != t4.name.local_name@.len());
    };
    let _ = class.define_instance_trait(t4);
    class
}

} // verus!
