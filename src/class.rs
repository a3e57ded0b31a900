//! Qualified names, traits and class descriptors of the second machine.

use crate::value::Value;
use vstd::prelude::*;

verus! {

/// A namespace: the visibility domain that qualifies a name.
pub enum Namespace {
    Public,
    Package(String),
    Internal,
    Protected,
    Explicit,
    StaticProtected,
    Private,
    RuntimePrivate(String),
}

/// A namespace as a kind and a payload (empty for the kinds without one).
pub open spec fn ns_key(n: Namespace) -> (u8, Seq<char>) {
    match n {
        Namespace::Public => (0, Seq::empty()),
        Namespace::Package(s) => (1, s@),
        Namespace::Internal => (2, Seq::empty()),
        Namespace::Protected => (3, Seq::empty()),
        Namespace::Explicit => (4, Seq::empty()),
        Namespace::StaticProtected => (5, Seq::empty()),
        Namespace::Private => (6, Seq::empty()),
        Namespace::RuntimePrivate(s) => (7, s@),
    }
}

impl Namespace {
    /// The public namespace.
    pub fn public_namespace() -> (r: Namespace)
        ensures
            ns_key(r) == (0u8, Seq::<char>::empty()),
    {
        Namespace::Public
    }

    /// The namespace of package `name`.
    pub fn package(name: &str) -> (r: Namespace)
        ensures
            ns_key(r) == (1u8, name@),
    {
        Namespace::Package(name.to_owned())
    }

    /// The private namespace of the runtime's own class `owner`.
    pub fn ruffle_private(owner: &str) -> (r: Namespace)
        ensures
            ns_key(r) == (7u8, owner@),
    {
        Namespace::RuntimePrivate(owner.to_owned())
    }

    /// Whether two namespaces are the same: same kind and same payload.
    pub fn same_as(&self, other: &Namespace) -> (r: bool)
        ensures
            r == (ns_key(*self) == ns_key(*other)),
    {
        match self {
            Namespace::Package(a) => match other {
                Namespace::Package(b) => *a == *b,
                _ => false,
            },
            Namespace::RuntimePrivate(a) => match other {
                Namespace::RuntimePrivate(b) => *a == *b,
                _ => false,
            },
            Namespace::Public => matches!(other, Namespace::Public),
            Namespace::Internal => matches!(other, Namespace::Internal),
            Namespace::Protected => matches!(other, Namespace::Protected),
            Namespace::Explicit => matches!(other, Namespace::Explicit),
            Namespace::StaticProtected => matches!(other, Namespace::StaticProtected),
            Namespace::Private => matches!(other, Namespace::Private),
        }
    }
}

/// A name qualified by a namespace.
pub struct QName {
    pub ns: Namespace,
    pub local_name: String,
}

pub open spec fn qname_key(q: QName) -> ((u8, Seq<char>), Seq<char>) {
    (ns_key(q.ns), q.local_name@)
}

impl QName {
    pub fn new(ns: Namespace, local_name: &str) -> (r: QName)
        ensures
            qname_key(r) == (ns_key(ns), local_name@),
    {
        QName { ns, local_name: local_name.to_owned() }
    }

    /// Whether two names are the same: namespace and local name alike.
    pub fn same_as(&self, other: &QName) -> (r: bool)
        ensures
            r == (qname_key(*self) == qname_key(*other)),
    {
        self.ns.same_as(&other.ns) && self.local_name == other.local_name
    }
}

/// Native methods that the runtime provides.
#[derive(Clone, Copy, Debug, PartialEq, Eq, Structural)]
pub enum NativeMethod {
    EventDispatcherInit,
    EventDispatcherClassInit,
    AddEventListener,
    RemoveEventListener,
    HasEventListener,
}

/// A method body.
#[derive(Clone, Copy, Debug, PartialEq, Eq, Structural)]
pub enum Method {
    Native(NativeMethod),
}

impl Method {
    pub fn from_builtin(m: NativeMethod) -> (r: Method)
        ensures
            r == Method::Native(m),
    {
        Method::Native(m)
    }
}

/// What a trait declares.
pub enum TraitKind {
    Slot { slot_type: QName, default_value: Option<Value> },
    Const { slot_type: QName, default_value: Option<Value> },
    Method(Method),
    Getter(Method),
    Setter(Method),
}

/// A member that a class declares, keyed by its qualified name.
pub struct Trait {
    pub name: QName,
    pub kind: TraitKind,
}

impl Trait {
    pub fn from_method(name: QName, method: Method) -> (r: Trait)
        ensures
            r == (Trait { name, kind: TraitKind::Method(method) }),
    {
        Trait { name, kind: TraitKind::Method(method) }
    }

    pub fn from_slot(name: QName, slot_type: QName, default_value: Option<Value>) -> (r: Trait)
        ensures
            r == (Trait { name, kind: TraitKind::Slot { slot_type, default_value } }),
    {
        Trait { name, kind: TraitKind::Slot { slot_type, default_value } }
    }
}

/// Why a class could not be built.
#[derive(Clone, Copy, Debug, PartialEq, Eq, Structural)]
pub enum ClassError {
    /// The class already has a trait of that name in the same table.
    DuplicateTrait,
}

/// What a class descriptor is, for the proofs.
pub struct ClassView {
    pub name: QName,
    pub super_class: Option<QName>,
    pub instance_init: Method,
    pub class_init: Method,
    pub interfaces: Seq<QName>,
    pub instance_traits: Seq<Trait>,
    pub class_traits: Seq<Trait>,
}

/// A class: its name, super class, interfaces and trait tables.
pub struct Class {
    name: QName,
    super_class: Option<QName>,
    instance_init: Method,
    class_init: Method,
    interfaces: Vec<QName>,
    instance_traits: Vec<Trait>,
    class_traits: Vec<Trait>,
}

impl View for Class {
    type V = ClassView;

    closed spec fn view(&self) -> ClassView {
        ClassView {
            name: self.name,
            super_class: self.super_class,
            instance_init: self.instance_init,
            class_init: self.class_init,
            interfaces: self.interfaces@,
            instance_traits: self.instance_traits@,
            class_traits: self.class_traits@,
        }
    }
}

/// Whether a trait of table `ts` is named like `q`.
pub open spec fn has_trait_named(ts: Seq<Trait>, q: QName) -> bool {
    exists|i: int| 0 <= i < ts.len() && qname_key(#[trigger] ts[i].name) == qname_key(q)
}

/// Whether the name list `qs` holds a name like `q`.
pub open spec fn has_name(qs: Seq<QName>, q: QName) -> bool {
    exists|i: int| 0 <= i < qs.len() && qname_key(#[trigger] qs[i]) == qname_key(q)
}

fn find_trait(ts: &Vec<Trait>, q: &QName) -> (r: bool)
    ensures
        r == has_trait_named(ts@, *q),
{
    let mut i: usize = 0;
    while i < ts.len()
        invariant
            i <= ts@.len(),
            forall|j: int| 0 <= j < i ==> qname_key(#[trigger] ts@[j].name) != qname_key(*q),
        decreases ts@.len() - i,
    {
        if ts[i].name.same_as(q) {
            return true;
        }
        i = i + 1;
    }
    false
}

fn find_name(qs: &Vec<QName>, q: &QName) -> (r: bool)
    ensures
        r == has_name(qs@, *q),
{
    let mut i: usize = 0;
    while i < qs.len()
        invariant
            i <= qs@.len(),
            forall|j: int| 0 <= j < i ==> qname_key(#[trigger] qs@[j]) != qname_key(*q),
        decreases qs@.len() - i,
    {
        if qs[i].same_as(q) {
            return true;
        }
        i = i + 1;
    }
    false
}

impl Class {
    /// A class with no interfaces and no traits.
    pub fn new(name: QName, super_class: Option<QName>, instance_init: Method, class_init: Method) -> (r: Class)
        ensures
            r@ == (ClassView {
                name,
                super_class,
                instance_init,
                class_init,
                interfaces: Seq::empty(),
                instance_traits: Seq::empty(),
                class_traits: Seq::empty(),
            }),
    {
        let r = Class {
            name,
            super_class,
            instance_init,
            class_init,
            interfaces: Vec::new(),
            instance_traits: Vec::new(),
            class_traits: Vec::new(),
        };
        assert(r@.interfaces =~= Seq::empty());
        assert(r@.instance_traits =~= Seq::empty());
        assert(r@.class_traits =~= Seq::empty());
        r
    }

    /// Records that the class implements `iface`; a name already recorded is
    /// not added twice.
    pub fn implements(&mut self, iface: QName)
        ensures
            has_name(old(self)@.interfaces, iface) ==> final(self)@ == old(self)@,
            !has_name(old(self)@.interfaces, iface) ==> final(self)@ == (ClassView {
                interfaces: old(self)@.interfaces.push(iface),
                ..old(self)@
            }),
    {
        if !find_name(&self.interfaces, &iface) {
            self.interfaces.push(iface);
        }
    }

    /// Adds `t` to the instance traits, or fails when one of that name is
    /// there already.
    pub fn define_instance_trait(&mut self, t: Trait) -> (r: Result<(), ClassError>)
        ensures
            has_trait_named(old(self)@.instance_traits, t.name) ==> r == Err::<(), ClassError>(
                ClassError::DuplicateTrait,
            ) && final(self)@ == old(self)@,
            !has_trait_named(old(self)@.instance_traits, t.name) ==> r is Ok && final(self)@ == (ClassView {
                instance_traits: old(self)@.instance_traits.push(t),
                ..old(self)@
            }),
    {
        if find_trait(&self.instance_traits, &t.name) {
            return Err(ClassError::DuplicateTrait);
        }
        self.instance_traits.push(t);
        Ok(())
    }

    /// Adds `t` to the class traits, or fails when one of that name is there
    /// already.
    pub fn define_class_trait(&mut self, t: Trait) -> (r: Result<(), ClassError>)
        ensures
            has_trait_named(old(self)@.class_traits, t.name) ==> r == Err::<(), ClassError>(
                ClassError::DuplicateTrait,
            ) && final(self)@ == old(self)@,
            !has_trait_named(old(self)@.class_traits, t.name) ==> r is Ok && final(self)@ == (ClassView {
                class_traits: old(self)@.class_traits.push(t),
                ..old(self)@
            }),
    {
        if find_trait(&self.class_traits, &t.name) {
            return Err(ClassError::DuplicateTrait);
        }
        self.class_traits.push(t);
        Ok(())
    }

    pub fn name(&self) -> (r: &QName)
        ensures
            *r == self@.name,
    {
        &self.name
    }

    pub fn super_class_name(&self) -> (r: &Option<QName>)
        ensures
            *r == self@.super_class,
    {
        &self.super_class
    }

    pub fn instance_init(&self) -> (r: Method)
        ensures
            r == self@.instance_init,
    {
        self.instance_init
    }

    pub fn class_init(&self) -> (r: Method)
        ensures
            r == self@.class_init,
    {
        self.class_init
    }

    /// Whether the class declares that it implements `iface`.
    pub fn implements_interface(&self, iface: &QName) -> (r: bool)
        ensures
            r == has_name(self@.interfaces, *iface),
    {
        find_name(&self.interfaces, iface)
    }

    /// Whether the class has an instance trait named `name`.
    pub fn has_instance_trait(&self, name: &QName) -> (r: bool)
        ensures
            r == has_trait_named(self@.instance_traits, *name),
    {
        find_trait(&self.instance_traits, name)
    }

    /// Whether the class has a class trait named `name`.
    pub fn has_class_trait(&self, name: &QName) -> (r: bool)
        ensures
            r == has_trait_named(self@.class_traits, *name),
    {
        find_trait(&self.class_traits, name)
    }

    pub fn instance_traits(&self) -> (r: &Vec<Trait>)
        ensures
            r@ == self@.instance_traits,
    {
        &self.instance_traits
    }

    pub fn class_traits(&self) -> (r: &Vec<Trait>)
        ensures
            r@ == self@.class_traits,
    {
        &self.class_traits
    }
}

} // verus!
