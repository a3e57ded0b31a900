//! The heap arena of the first machine: objects with ordered property maps
//! and prototype links, scope chains, and shared register files.
//!
//! Handles are indices. An object's prototype and a scope's parent always
//! stand before it in the arena, so every chain is finite.

use crate::names::{ascii_fold, name_matches, names_match};
use crate::ops::{type_name_of, type_of};
use crate::registers::RegisterSet;
use crate::value::{ObjectId, Value};
use vstd::prelude::*;

verus! {

/// Handle of a scope in the heap arena.
#[derive(Clone, Copy, Debug, PartialEq, Eq, Structural)]
pub struct ScopeId(pub usize);

/// Handle of a register file in the heap arena.
#[derive(Clone, Copy, Debug, PartialEq, Eq, Structural)]
pub struct RegistersId(pub usize);

/// A named data slot of an object, with its attribute flags.
pub struct Property {
    pub name: String,
    pub value: Value,
    pub dont_enum: bool,
    pub dont_delete: bool,
    pub read_only: bool,
}

/// An object: properties in insertion order, an optional prototype, and
/// whether it stands for a movie clip of the display list.
pub struct Object {
    pub properties: Vec<Property>,
    pub proto: Option<ObjectId>,
    pub is_clip: bool,
}

/// What a scope contributes to name lookup.
#[derive(Clone, Copy, Debug, PartialEq, Eq, Structural)]
pub enum ScopeKind {
    Global,
    Local,
    With,
    Target,
}

/// A node of a scope chain.
#[derive(Clone, Copy, Debug, PartialEq, Eq, Structural)]
pub struct Scope {
    pub parent: Option<ScopeId>,
    pub binding: ObjectId,
    pub kind: ScopeKind,
}

pub open spec fn prop_matches(p: Property, version: u8, name: Seq<char>) -> bool {
    names_match(version, p.name@, name)
}

/// Index of the first property at or after `i` whose name matches, or -1.
pub open spec fn find_from(props: Seq<Property>, version: u8, name: Seq<char>, i: int) -> int
    decreases props.len() - i,
{
    if i < 0 || i >= props.len() {
        -1
    } else if prop_matches(props[i], version, name) {
        i
    } else {
        find_from(props, version, name, i + 1)
    }
}

/// Index of the first own property named `name`, or -1.
pub open spec fn own_index(props: Seq<Property>, version: u8, name: Seq<char>) -> int {
    find_from(props, version, name, 0)
}

/// The value of `name` on object `id` or, failing that, up its prototype chain.
pub open spec fn lookup(objects: Seq<Object>, id: int, version: u8, name: Seq<char>) -> Option<Value>
    decreases id,
{
    if id < 0 || id >= objects.len() {
        None
    } else {
        let props = objects[id].properties@;
        let i = own_index(props, version, name);
        if i >= 0 {
            Some(props[i].value)
        } else {
            match objects[id].proto {
                Some(p) => if p.0 < id {
                    lookup(objects, p.0 as int, version, name)
                } else {
                    None
                },
                None => None,
            }
        }
    }
}

/// The value that `name` resolves to from scope `sid`: the first scope, from
/// the innermost out, whose bound object has the name.
pub open spec fn resolve_in(
    scopes: Seq<Scope>,
    objects: Seq<Object>,
    sid: int,
    version: u8,
    name: Seq<char>,
) -> Option<Value>
    decreases sid,
{
    if sid < 0 || sid >= scopes.len() {
        None
    } else {
        match lookup(objects, scopes[sid].binding.0 as int, version, name) {
            Some(v) => Some(v),
            None => match scopes[sid].parent {
                Some(p) => if p.0 < sid {
                    resolve_in(scopes, objects, p.0 as int, version, name)
                } else {
                    None
                },
                None => None,
            },
        }
    }
}

/// The scope that a definition made from `sid` lands in: the nearest Local
/// scope, or the root of the chain when there is none.
pub open spec fn define_target(scopes: Seq<Scope>, sid: int) -> int
    decreases sid,
{
    if sid < 0 || sid >= scopes.len() {
        sid
    } else if scopes[sid].kind == ScopeKind::Local {
        sid
    } else {
        match scopes[sid].parent {
            Some(p) => if p.0 < sid {
                define_target(scopes, p.0 as int)
            } else {
                sid
            },
            None => sid,
        }
    }
}

/// The root of the chain that starts at `sid`.
pub open spec fn root_of(scopes: Seq<Scope>, sid: int) -> int
    decreases sid,
{
    if sid < 0 || sid >= scopes.len() {
        sid
    } else {
        match scopes[sid].parent {
            Some(p) => if p.0 < sid {
                root_of(scopes, p.0 as int)
            } else {
                sid
            },
            None => sid,
        }
    }
}

/// The scope that an assignment made from `sid` lands in: the first one whose
/// bound object has the name, else the root of the chain.
pub open spec fn assign_target(
    scopes: Seq<Scope>,
    objects: Seq<Object>,
    sid: int,
    version: u8,
    name: Seq<char>,
) -> int
    decreases sid,
{
    if sid < 0 || sid >= scopes.len() {
        sid
    } else if lookup(objects, scopes[sid].binding.0 as int, version, name) is Some {
        sid
    } else {
        match scopes[sid].parent {
            Some(p) => if p.0 < sid {
                assign_target(scopes, objects, p.0 as int, version, name)
            } else {
                sid
            },
            None => sid,
        }
    }
}

/// `new` is `old` after writing `value` to own property `name`: the first
/// matching property takes the value unless it is read-only; with no match a
/// new enumerable property is appended.
pub open spec fn put_own(
    old: Seq<Property>,
    new: Seq<Property>,
    version: u8,
    name: Seq<char>,
    value: Value,
) -> bool {
    let i = own_index(old, version, name);
    if i >= 0 {
        if old[i].read_only {
            new == old
        } else {
            new.len() == old.len() && (forall|k: int|
                0 <= k < old.len() && k != i ==> new[k] == old[k]) && new[i].name@ == old[i].name@
                && new[i].value == value && new[i].dont_enum == old[i].dont_enum
                && new[i].dont_delete == old[i].dont_delete && new[i].read_only == old[i].read_only
        }
    } else {
        new.len() == old.len() + 1 && new.subrange(0, old.len() as int) == old && new.last().name@
            == name && new.last().value == value && !new.last().dont_enum
            && !new.last().dont_delete && !new.last().read_only
    }
}

/// Names of the properties that enumeration yields, in insertion order.
pub open spec fn enumerable_names(props: Seq<Property>) -> Seq<Seq<char>>
    decreases props.len(),
{
    if props.len() == 0 {
        Seq::empty()
    } else {
        let rest = enumerable_names(props.drop_last());
        if props.last().dont_enum {
            rest
        } else {
            rest.push(props.last().name@)
        }
    }
}

/// The value read from a lookup that may have found nothing.
pub open spec fn or_undefined(v: Option<Value>) -> Value {
    match v {
        Some(x) => x,
        None => Value::Undefined,
    }
}

/// `new` is `old` after `put_own` on the properties of object `o`.
pub open spec fn wrote_property(
    old: Seq<Object>,
    new: Seq<Object>,
    o: int,
    version: u8,
    name: Seq<char>,
    value: Value,
) -> bool {
    &&& new.len() == old.len()
    &&& forall|k: int| 0 <= k < old.len() && k != o ==> new[k] == old[k]
    &&& new[o].proto == old[o].proto
    &&& new[o].is_clip == old[o].is_clip
    &&& put_own(old[o].properties@, new[o].properties@, version, name, value)
}

/// The arena: every object, scope and register file.
pub struct Heap {
    objects: Vec<Object>,
    scopes: Vec<Scope>,
    registers: Vec<RegisterSet>,
}

impl Heap {
    pub closed spec fn object_seq(&self) -> Seq<Object> {
        self.objects@
    }

    pub closed spec fn scope_seq(&self) -> Seq<Scope> {
        self.scopes@
    }

    pub closed spec fn register_seq(&self) -> Seq<Seq<Value>> {
        self.registers@.map_values(|r: RegisterSet| r@)
    }

    pub open spec fn valid_object(&self, o: ObjectId) -> bool {
        o.0 < self.object_seq().len()
    }

    pub open spec fn valid_scope(&self, s: ScopeId) -> bool {
        s.0 < self.scope_seq().len()
    }

    pub open spec fn valid_registers(&self, r: RegistersId) -> bool {
        r.0 < self.register_seq().len()
    }

    /// Prototypes and parents come earlier in the arena, scopes bind existing
    /// objects, and exactly the roots of scope chains are Global.
    pub open spec fn wf(&self) -> bool {
        &&& forall|i: int|
            0 <= i < self.object_seq().len() ==> match #[trigger] self.object_seq()[i].proto {
                Some(p) => p.0 < i,
                None => true,
            }
        &&& forall|i: int|
            0 <= i < self.scope_seq().len() ==> {
                let s = #[trigger] self.scope_seq()[i];
                &&& s.binding.0 < self.object_seq().len()
                &&& match s.parent {
                    Some(p) => p.0 < i && s.kind != ScopeKind::Global,
                    None => s.kind == ScopeKind::Global,
                }
            }
    }

    /// An empty arena.
    pub fn new() -> (r: Heap)
        ensures
            r.wf(),
            r.object_seq().len() == 0,
            r.scope_seq().len() == 0,
            r.register_seq().len() == 0,
    {
        Heap { objects: Vec::new(), scopes: Vec::new(), registers: Vec::new() }
    }

    fn alloc_object(&mut self, proto: Option<ObjectId>, is_clip: bool) -> (r: ObjectId)
        requires
            old(self).wf(),
            match proto {
                Some(p) => old(self).valid_object(p),
                None => true,
            },
        ensures
            final(self).wf(),
            r.0 == old(self).object_seq().len(),
            final(self).object_seq().len() == old(self).object_seq().len() + 1,
            final(self).object_seq().subrange(0, r.0 as int) == old(self).object_seq(),
            final(self).object_seq()[r.0 as int].properties@.len() == 0,
            final(self).object_seq()[r.0 as int].proto == proto,
            final(self).object_seq()[r.0 as int].is_clip == is_clip,
            final(self).scope_seq() == old(self).scope_seq(),
            final(self).register_seq() == old(self).register_seq(),
    {
        let id = self.objects.len();
        self.objects.push(Object { properties: Vec::new(), proto, is_clip });
        proof {
            assert(self.object_seq().subrange(0, id as int) =~= old(self).object_seq());
        }
        ObjectId(id)
    }

    /// Allocates a plain object with no properties and the given prototype.
    pub fn new_object(&mut self, proto: Option<ObjectId>) -> (r: ObjectId)
        requires
            old(self).wf(),
            match proto {
                Some(p) => old(self).valid_object(p),
                None => true,
            },
        ensures
            final(self).wf(),
            r.0 == old(self).object_seq().len(),
            final(self).object_seq().len() == old(self).object_seq().len() + 1,
            final(self).object_seq().subrange(0, r.0 as int) == old(self).object_seq(),
            final(self).object_seq()[r.0 as int].properties@.len() == 0,
            final(self).object_seq()[r.0 as int].proto == proto,
            !final(self).object_seq()[r.0 as int].is_clip,
            final(self).scope_seq() == old(self).scope_seq(),
            final(self).register_seq() == old(self).register_seq(),
    {
        self.alloc_object(proto, false)
    }

    /// Allocates the object of a movie clip, with no properties and the
    /// given prototype.
    pub fn new_clip_object(&mut self, proto: Option<ObjectId>) -> (r: ObjectId)
        requires
            old(self).wf(),
            match proto {
                Some(p) => old(self).valid_object(p),
                None => true,
            },
        ensures
            final(self).wf(),
            r.0 == old(self).object_seq().len(),
            final(self).object_seq().len() == old(self).object_seq().len() + 1,
            final(self).object_seq().subrange(0, r.0 as int) == old(self).object_seq(),
            final(self).object_seq()[r.0 as int].properties@.len() == 0,
            final(self).object_seq()[r.0 as int].proto == proto,
            final(self).object_seq()[r.0 as int].is_clip,
            final(self).scope_seq() == old(self).scope_seq(),
            final(self).register_seq() == old(self).register_seq(),
    {
        self.alloc_object(proto, true)
    }

    /// `typeof`: `movieclip` for the object of a movie clip, otherwise the
    /// name of the value's type.
    pub fn type_of(&self, v: &Value) -> (r: String)
        requires
            match v {
                Value::Object(o) => self.valid_object(*o),
                _ => true,
            },
        ensures
            r@ == (match v {
                Value::Object(o) => if self.object_seq()[o.0 as int].is_clip {
                    "movieclip"@
                } else {
                    type_name_of(*v)
                },
                _ => type_name_of(*v),
            }),
    {
        match v {
            Value::Object(o) => {
                if self.objects[o.0].is_clip {
                    return "movieclip".to_owned();
                }
            },
            _ => {},
        }
        type_of(v)
    }

    fn find_own(&self, o: ObjectId, version: u8, name: &str) -> (r: Option<usize>)
        requires
            self.valid_object(o),
        ensures
            match r {
                Some(i) => i as int == own_index(
                    self.object_seq()[o.0 as int].properties@,
                    version,
                    name@,
                ) && i < self.object_seq()[o.0 as int].properties@.len(),
                None => own_index(self.object_seq()[o.0 as int].properties@, version, name@) == -1,
            },
    {
        let props = &self.objects[o.0].properties;
        let mut i: usize = 0;
        while i < props.len()
            invariant
                self.valid_object(o),
                props@ == self.object_seq()[o.0 as int].properties@,
                i <= props@.len(),
                find_from(props@, version, name@, 0) == find_from(props@, version, name@, i as int),
            decreases props@.len() - i,
        {
            if name_matches(version, props[i].name.as_str(), name) {
                assert(prop_matches(props@[i as int], version, name@));
                assert(find_from(props@, version, name@, i as int) == i as int);
                return Some(i);
            }
            i = i + 1;
        }
        None
    }

    /// The value of `name` on `o` or up its prototype chain, if any.
    pub fn lookup_value(&self, o: ObjectId, version: u8, name: &str) -> (r: Option<Value>)
        requires
            self.wf(),
            self.valid_object(o),
        ensures
            r == lookup(self.object_seq(), o.0 as int, version, name@),
    {
        let mut cur: usize = o.0;
        loop
            invariant
                self.wf(),
                cur < self.object_seq().len(),
                lookup(self.object_seq(), cur as int, version, name@) == lookup(
                    self.object_seq(),
                    o.0 as int,
                    version,
                    name@,
                ),
            decreases cur,
        {
            match self.find_own(ObjectId(cur), version, name) {
                Some(i) => {
                    return Some(self.objects[cur].properties[i].value.duplicate());
                },
                None => {
                    match self.objects[cur].proto {
                        Some(p) => {
                            assert(self.object_seq()[cur as int].proto == Some(p));
                            cur = p.0;
                        },
                        None => {
                            return None;
                        },
                    }
                },
            }
        }
    }

    /// The value of `name` on `o` or up its prototype chain; `Undefined` when
    /// it is nowhere.
    pub fn get_property(&self, o: ObjectId, version: u8, name: &str) -> (r: Value)
        requires
            self.wf(),
            self.valid_object(o),
        ensures
            r == or_undefined(lookup(self.object_seq(), o.0 as int, version, name@)),
    {
        match self.lookup_value(o, version, name) {
            Some(v) => v,
            None => Value::Undefined,
        }
    }

    /// Whether `name` is on `o` or up its prototype chain.
    pub fn has_property(&self, o: ObjectId, version: u8, name: &str) -> (r: bool)
        requires
            self.wf(),
            self.valid_object(o),
        ensures
            r == lookup(self.object_seq(), o.0 as int, version, name@) is Some,
    {
        self.lookup_value(o, version, name).is_some()
    }

    /// Whether `name` is an own property of `o`; prototypes are not consulted.
    pub fn has_own_property(&self, o: ObjectId, version: u8, name: &str) -> (r: bool)
        requires
            self.valid_object(o),
        ensures
            r == (own_index(self.object_seq()[o.0 as int].properties@, version, name@) >= 0),
    {
        self.find_own(o, version, name).is_some()
    }

    /// Writes `value` to own property `name` of `o` (see `put_own`).
    pub fn put_property(&mut self, o: ObjectId, version: u8, name: &str, value: Value)
        requires
            old(self).wf(),
            old(self).valid_object(o),
        ensures
            final(self).wf(),
            wrote_property(
                old(self).object_seq(),
                final(self).object_seq(),
                o.0 as int,
                version,
                name@,
                value,
            ),
            final(self).scope_seq() == old(self).scope_seq(),
            final(self).register_seq() == old(self).register_seq(),
    {
        match self.find_own(o, version, name) {
            Some(i) => {
                if !self.objects[o.0].properties[i].read_only {
                    self.objects[o.0].properties[i].value = value;
                }
            },
            None => {
                let p = Property {
                    name: name.to_owned(),
                    value,
                    dont_enum: false,
                    dont_delete: false,
                    read_only: false,
                };
                self.objects[o.0].properties.push(p);
                proof {
                    let ps = self.object_seq()[o.0 as int].properties@;
                    let ops = old(self).object_seq()[o.0 as int].properties@;
                    assert(ps.subrange(0, ops.len() as int) =~= ops);
                }
            },
        }
        proof {
            assert(self.object_seq().len() == old(self).object_seq().len());
            assert forall|i: int| 0 <= i < self.object_seq().len() implies match #[trigger] self.object_seq()[i].proto {
                Some(p) => p.0 < i,
                None => true,
            } by {
                assert(self.object_seq()[i].proto == old(self).object_seq()[i].proto);
            }
            assert forall|i: int| 0 <= i < self.scope_seq().len() implies #[trigger] self.scope_seq()[i].binding.0 < self.object_seq().len() by {
                assert(self.scope_seq()[i] == old(self).scope_seq()[i]);
            }
        }
    }

    /// Sets or clears the `dontEnum` flag of own property `name` of `o`;
    /// returns whether `o` has that property.
    pub fn set_dont_enum(&mut self, o: ObjectId, version: u8, name: &str, flag: bool) -> (r: bool)
        requires
            old(self).wf(),
            old(self).valid_object(o),
        ensures
            final(self).wf(),
            ({
                let i = own_index(old(self).object_seq()[o.0 as int].properties@, version, name@);
                let ps = old(self).object_seq()[o.0 as int].properties@;
                &&& r == (i >= 0)
                &&& r ==> final(self).object_seq() == old(self).object_seq().update(
                    o.0 as int,
                    Object {
                        properties: final(self).object_seq()[o.0 as int].properties,
                        proto: old(self).object_seq()[o.0 as int].proto,
                        is_clip: old(self).object_seq()[o.0 as int].is_clip,
                    },
                ) && final(self).object_seq()[o.0 as int].properties@ == ps.update(
                    i,
                    Property {
                        name: final(self).object_seq()[o.0 as int].properties@[i].name,
                        value: ps[i].value,
                        dont_enum: flag,
                        dont_delete: ps[i].dont_delete,
                        read_only: ps[i].read_only,
                    },
                ) && final(self).object_seq()[o.0 as int].properties@[i].name@ == ps[i].name@
                &&& !r ==> final(self).object_seq() == old(self).object_seq()
            }),
            final(self).scope_seq() == old(self).scope_seq(),
            final(self).register_seq() == old(self).register_seq(),
    {
        match self.find_own(o, version, name) {
            Some(i) => {
                self.objects[o.0].properties[i].dont_enum = flag;
                proof {
                    assert(self.object_seq() =~= old(self).object_seq().update(
                        o.0 as int,
                        Object {
                            properties: self.object_seq()[o.0 as int].properties,
                            proto: old(self).object_seq()[o.0 as int].proto,
                            is_clip: old(self).object_seq()[o.0 as int].is_clip,
                        },
                    ));
                    assert(self.object_seq()[o.0 as int].properties@ =~= old(self).object_seq()[o.0 as int].properties@.update(
                        i as int,
                        Property {
                            name: self.object_seq()[o.0 as int].properties@[i as int].name,
                            value: old(self).object_seq()[o.0 as int].properties@[i as int].value,
                            dont_enum: flag,
                            dont_delete: old(self).object_seq()[o.0 as int].properties@[i as int].dont_delete,
                            read_only: old(self).object_seq()[o.0 as int].properties@[i as int].read_only,
                        },
                    ));
                    assert forall|j: int| 0 <= j < self.object_seq().len() implies match #[trigger] self.object_seq()[j].proto {
                        Some(p) => p.0 < j,
                        None => true,
                    } by {
                        assert(self.object_seq()[j].proto == old(self).object_seq()[j].proto);
                    }
                    assert forall|j: int| 0 <= j < self.scope_seq().len() implies #[trigger] self.scope_seq()[j].binding.0 < self.object_seq().len() by {
                        assert(self.scope_seq()[j] == old(self).scope_seq()[j]);
                    }
                }
                true
            },
            None => false,
        }
    }

    /// Names of the own properties of `o` that enumeration yields: those
    /// without `dontEnum`, in insertion order. Prototypes are not consulted.
    pub fn enumerate(&self, o: ObjectId) -> (r: Vec<String>)
        requires
            self.valid_object(o),
        ensures
            r@.map_values(|s: String| s@) == enumerable_names(
                self.object_seq()[o.0 as int].properties@,
            ),
    {
        let props = &self.objects[o.0].properties;
        let mut r: Vec<String> = Vec::new();
        let mut i: usize = 0;
        while i < props.len()
            invariant
                self.valid_object(o),
                props@ == self.object_seq()[o.0 as int].properties@,
                i <= props@.len(),
                r@.map_values(|s: String| s@) == enumerable_names(props@.subrange(0, i as int)),
            decreases props@.len() - i,
        {
            proof {
                assert(props@.subrange(0, i as int + 1).drop_last() =~= props@.subrange(0, i as int));
            }
            if !props[i].dont_enum {
                let n = props[i].name.clone();
                r.push(n);
                proof {
                    assert(r@.map_values(|s: String| s@) =~= enumerable_names(
                        props@.subrange(0, i as int),
                    ).push(props@[i as int].name@));
                }
            }
            i = i + 1;
        }
        proof {
            assert(props@.subrange(0, props@.len() as int) =~= props@);
        }
        r
    }

    fn push_scope(&mut self, parent: Option<ScopeId>, binding: ObjectId, kind: ScopeKind) -> (r: ScopeId)
        requires
            old(self).wf(),
            old(self).valid_object(binding),
            match parent {
                Some(p) => old(self).valid_scope(p) && kind != ScopeKind::Global,
                None => kind == ScopeKind::Global,
            },
        ensures
            final(self).wf(),
            r.0 == old(self).scope_seq().len(),
            final(self).scope_seq() == old(self).scope_seq().push(Scope { parent, binding, kind }),
            final(self).object_seq() == old(self).object_seq(),
            final(self).register_seq() == old(self).register_seq(),
    {
        let id = self.scopes.len();
        self.scopes.push(Scope { parent, binding, kind });
        ScopeId(id)
    }

    /// A root scope that binds the global object.
    pub fn new_global_scope(&mut self, globals: ObjectId) -> (r: ScopeId)
        requires
            old(self).wf(),
            old(self).valid_object(globals),
        ensures
            final(self).wf(),
            r.0 == old(self).scope_seq().len(),
            final(self).scope_seq() == old(self).scope_seq().push(
                Scope { parent: None, binding: globals, kind: ScopeKind::Global },
            ),
            final(self).object_seq() == old(self).object_seq(),
            final(self).register_seq() == old(self).register_seq(),
    {
        self.push_scope(None, globals, ScopeKind::Global)
    }

    /// A Local child of `parent` that binds a fresh empty object, where
    /// variable definitions land.
    pub fn new_local_scope(&mut self, parent: ScopeId) -> (r: ScopeId)
        requires
            old(self).wf(),
            old(self).valid_scope(parent),
        ensures
            final(self).wf(),
            r.0 == old(self).scope_seq().len(),
            final(self).scope_seq() == old(self).scope_seq().push(
                Scope {
                    parent: Some(parent),
                    binding: ObjectId(old(self).object_seq().len() as usize),
                    kind: ScopeKind::Local,
                },
            ),
            final(self).object_seq().len() == old(self).object_seq().len() + 1,
            final(self).object_seq().subrange(0, old(self).object_seq().len() as int)
                == old(self).object_seq(),
            final(self).object_seq().last().properties@.len() == 0,
            final(self).object_seq().last().proto is None,
            !final(self).object_seq().last().is_clip,
            final(self).register_seq() == old(self).register_seq(),
    {
        let locals = self.new_object(None);
        self.push_scope(Some(parent), locals, ScopeKind::Local)
    }

    /// A With child of `parent` that puts `obj` into lookup.
    pub fn new_with_scope(&mut self, parent: ScopeId, obj: ObjectId) -> (r: ScopeId)
        requires
            old(self).wf(),
            old(self).valid_scope(parent),
            old(self).valid_object(obj),
        ensures
            final(self).wf(),
            r.0 == old(self).scope_seq().len(),
            final(self).scope_seq() == old(self).scope_seq().push(
                Scope { parent: Some(parent), binding: obj, kind: ScopeKind::With },
            ),
            final(self).object_seq() == old(self).object_seq(),
            final(self).register_seq() == old(self).register_seq(),
    {
        self.push_scope(Some(parent), obj, ScopeKind::With)
    }

    /// A Target child of `parent` that binds the object of a display target.
    pub fn new_target_scope(&mut self, parent: ScopeId, clip: ObjectId) -> (r: ScopeId)
        requires
            old(self).wf(),
            old(self).valid_scope(parent),
            old(self).valid_object(clip),
        ensures
            final(self).wf(),
            r.0 == old(self).scope_seq().len(),
            final(self).scope_seq() == old(self).scope_seq().push(
                Scope { parent: Some(parent), binding: clip, kind: ScopeKind::Target },
            ),
            final(self).object_seq() == old(self).object_seq(),
            final(self).register_seq() == old(self).register_seq(),
    {
        self.push_scope(Some(parent), clip, ScopeKind::Target)
    }

    /// The scope with handle `s`.
    pub fn scope(&self, s: ScopeId) -> (r: Scope)
        requires
            self.valid_scope(s),
        ensures
            r == self.scope_seq()[s.0 as int],
    {
        self.scopes[s.0]
    }

    /// What `name` resolves to from scope `s`, if it is bound anywhere on the
    /// chain.
    pub fn resolve_value(&self, s: ScopeId, version: u8, name: &str) -> (r: Option<Value>)
        requires
            self.wf(),
            self.valid_scope(s),
        ensures
            r == resolve_in(self.scope_seq(), self.object_seq(), s.0 as int, version, name@),
    {
        let mut cur: usize = s.0;
        loop
            invariant
                self.wf(),
                cur < self.scope_seq().len(),
                resolve_in(self.scope_seq(), self.object_seq(), cur as int, version, name@)
                    == resolve_in(self.scope_seq(), self.object_seq(), s.0 as int, version, name@),
            decreases cur,
        {
            let sc = self.scopes[cur];
            assert(sc == self.scope_seq()[cur as int]);
            match self.lookup_value(sc.binding, version, name) {
                Some(v) => {
                    return Some(v);
                },
                None => {
                    match sc.parent {
                        Some(p) => {
                            cur = p.0;
                        },
                        None => {
                            return None;
                        },
                    }
                },
            }
        }
    }

    /// What `name` resolves to from scope `s`; `Undefined` when it is unbound.
    pub fn resolve(&self, s: ScopeId, version: u8, name: &str) -> (r: Value)
        requires
            self.wf(),
            self.valid_scope(s),
        ensures
            r == or_undefined(
                resolve_in(self.scope_seq(), self.object_seq(), s.0 as int, version, name@),
            ),
    {
        match self.resolve_value(s, version, name) {
            Some(v) => v,
            None => Value::Undefined,
        }
    }

    /// Whether `name` is bound anywhere on the chain from `s`.
    pub fn is_defined(&self, s: ScopeId, version: u8, name: &str) -> (r: bool)
        requires
            self.wf(),
            self.valid_scope(s),
        ensures
            r == resolve_in(self.scope_seq(), self.object_seq(), s.0 as int, version, name@) is Some,
    {
        self.resolve_value(s, version, name).is_some()
    }

    fn find_define_target(&self, s: ScopeId) -> (r: ScopeId)
        requires
            self.wf(),
            self.valid_scope(s),
        ensures
            r.0 == define_target(self.scope_seq(), s.0 as int),
            self.valid_scope(r),
    {
        let mut cur: usize = s.0;
        loop
            invariant
                self.wf(),
                cur < self.scope_seq().len(),
                define_target(self.scope_seq(), cur as int) == define_target(self.scope_seq(), s.0 as int),
            decreases cur,
        {
            let sc = self.scopes[cur];
            assert(sc == self.scope_seq()[cur as int]);
            if sc.kind == ScopeKind::Local {
                return ScopeId(cur);
            }
            match sc.parent {
                Some(p) => {
                    cur = p.0;
                },
                None => {
                    return ScopeId(cur);
                },
            }
        }
    }

    fn find_assign_target(&self, s: ScopeId, version: u8, name: &str) -> (r: ScopeId)
        requires
            self.wf(),
            self.valid_scope(s),
        ensures
            r.0 == assign_target(self.scope_seq(), self.object_seq(), s.0 as int, version, name@),
            self.valid_scope(r),
    {
        let mut cur: usize = s.0;
        loop
            invariant
                self.wf(),
                cur < self.scope_seq().len(),
                assign_target(self.scope_seq(), self.object_seq(), cur as int, version, name@)
                    == assign_target(self.scope_seq(), self.object_seq(), s.0 as int, version, name@),
            decreases cur,
        {
            let sc = self.scopes[cur];
            assert(sc == self.scope_seq()[cur as int]);
            if self.has_property(sc.binding, version, name) {
                return ScopeId(cur);
            }
            match sc.parent {
                Some(p) => {
                    cur = p.0;
                },
                None => {
                    return ScopeId(cur);
                },
            }
        }
    }

    /// Defines variable `name` from scope `s`: the value is written to the
    /// object of the nearest Local scope, or of the global scope when the
    /// chain has no Local scope.
    pub fn define(&mut self, s: ScopeId, version: u8, name: &str, value: Value)
        requires
            old(self).wf(),
            old(self).valid_scope(s),
        ensures
            final(self).wf(),
            wrote_property(
                old(self).object_seq(),
                final(self).object_seq(),
                old(self).scope_seq()[define_target(old(self).scope_seq(), s.0 as int)].binding.0 as int,
                version,
                name@,
                value,
            ),
            final(self).scope_seq() == old(self).scope_seq(),
            final(self).register_seq() == old(self).register_seq(),
    {
        let t = self.find_define_target(s);
        let b = self.scopes[t.0].binding;
        self.put_property(b, version, name, value);
    }

    /// Assigns variable `name` from scope `s`: the value is written to the
    /// object of the first scope on the chain that has the name, or to the
    /// global object when none has it.
    pub fn set_variable(&mut self, s: ScopeId, version: u8, name: &str, value: Value)
        requires
            old(self).wf(),
            old(self).valid_scope(s),
        ensures
            final(self).wf(),
            wrote_property(
                old(self).object_seq(),
                final(self).object_seq(),
                old(self).scope_seq()[assign_target(
                    old(self).scope_seq(),
                    old(self).object_seq(),
                    s.0 as int,
                    version,
                    name@,
                )].binding.0 as int,
                version,
                name@,
                value,
            ),
            final(self).scope_seq() == old(self).scope_seq(),
            final(self).register_seq() == old(self).register_seq(),
    {
        let t = self.find_assign_target(s, version, name);
        let b = self.scopes[t.0].binding;
        self.put_property(b, version, name, value);
    }

    /// Allocates a register file of `num` registers, all `Undefined`.
    pub fn allocate_registers(&mut self, num: u8) -> (r: RegistersId)
        requires
            old(self).wf(),
        ensures
            final(self).wf(),
            r.0 == old(self).register_seq().len(),
            final(self).register_seq() == old(self).register_seq().push(
                Seq::new(num as nat, |_i: int| Value::Undefined),
            ),
            final(self).object_seq() == old(self).object_seq(),
            final(self).scope_seq() == old(self).scope_seq(),
    {
        let id = self.registers.len();
        let regs = RegisterSet::new(num);
        self.registers.push(regs);
        proof {
            assert(self.register_seq() =~= old(self).register_seq().push(
                Seq::new(num as nat, |_i: int| Value::Undefined),
            ));
        }
        RegistersId(id)
    }

    /// Register `num` of file `r`; `Undefined` when the file has no such
    /// register.
    pub fn register(&self, r: RegistersId, num: u8) -> (v: Value)
        requires
            self.valid_registers(r),
        ensures
            (num as int) < self.register_seq()[r.0 as int].len() ==> v == self.register_seq()[r.0 as int][num as int],
            (num as int) >= self.register_seq()[r.0 as int].len() ==> v == Value::Undefined,
    {
        match self.registers[r.0].get(num) {
            Some(v) => v.duplicate(),
            None => Value::Undefined,
        }
    }

    /// Stores `value` in register `num` of file `r`; nothing changes when the
    /// file has no such register.
    pub fn set_register(&mut self, r: RegistersId, num: u8, value: Value)
        requires
            old(self).wf(),
            old(self).valid_registers(r),
        ensures
            final(self).wf(),
            (num as int) < old(self).register_seq()[r.0 as int].len() ==> final(self).register_seq()
                == old(self).register_seq().update(
                r.0 as int,
                old(self).register_seq()[r.0 as int].update(num as int, value),
            ),
            (num as int) >= old(self).register_seq()[r.0 as int].len() ==> final(self).register_seq()
                == old(self).register_seq(),
            final(self).object_seq() == old(self).object_seq(),
            final(self).scope_seq() == old(self).scope_seq(),
    {
        self.registers[r.0].set(num, value);
        proof {
            if (num as int) < old(self).register_seq()[r.0 as int].len() {
                assert(self.register_seq() =~= old(self).register_seq().update(
                    r.0 as int,
                    old(self).register_seq()[r.0 as int].update(num as int, value),
                ));
            } else {
                assert(self.register_seq() =~= old(self).register_seq());
            }
        }
    }
}

} // verus!

verus! {

proof fn lemma_find_from_same_match(
    props: Seq<Property>,
    version: u8,
    s1: Seq<char>,
    s2: Seq<char>,
    i: int,
)
    requires
        forall|k: int| 0 <= k < props.len() ==> prop_matches(#[trigger] props[k], version, s1)
            == prop_matches(props[k], version, s2),
    ensures
        find_from(props, version, s1, i) == find_from(props, version, s2, i),
    decreases props.len() - i,
{
    if 0 <= i < props.len() {
        lemma_find_from_same_match(props, version, s1, s2, i + 1);
    }
}

proof fn lemma_lookup_same_match(objects: Seq<Object>, id: int, version: u8, s1: Seq<char>, s2: Seq<char>)
    requires
        forall|x: Seq<char>| names_match(version, x, s1) == names_match(version, x, s2),
    ensures
        lookup(objects, id, version, s1) == lookup(objects, id, version, s2),
    decreases id,
{
    if 0 <= id < objects.len() {
        let props = objects[id].properties@;
        assert forall|k: int| 0 <= k < props.len() implies prop_matches(#[trigger] props[k], version, s1)
            == prop_matches(props[k], version, s2) by {
            assert(names_match(version, props[k].name@, s1) == names_match(version, props[k].name@, s2));
        }
        lemma_find_from_same_match(props, version, s1, s2, 0);
        match objects[id].proto {
            Some(p) => if p.0 < id {
                lemma_lookup_same_match(objects, p.0 as int, version, s1, s2);
            },
            None => {},
        }
    }
}

/// In a file of version 6 or below, two identifiers that are equal once ASCII
/// case is folded away resolve to the same value from every scope.
pub proof fn lemma_case_insensitive_resolution(
    scopes: Seq<Scope>,
    objects: Seq<Object>,
    sid: int,
    version: u8,
    s1: Seq<char>,
    s2: Seq<char>,
)
    requires
        version <= 6,
        ascii_fold(s1) == ascii_fold(s2),
    ensures
        resolve_in(scopes, objects, sid, version, s1) == resolve_in(scopes, objects, sid, version, s2),
    decreases sid,
{
    assert forall|x: Seq<char>| names_match(version, x, s1) == names_match(version, x, s2) by {}
    if 0 <= sid < scopes.len() {
        lemma_lookup_same_match(objects, scopes[sid].binding.0 as int, version, s1, s2);
        match scopes[sid].parent {
            Some(p) => if p.0 < sid {
                lemma_case_insensitive_resolution(scopes, objects, p.0 as int, version, s1, s2);
            },
            None => {},
        }
    }
}


proof fn lemma_find_from_agree(p: Seq<Property>, q: Seq<Property>, version: u8, name: Seq<char>, i: int)
    requires
        0 <= i,
        p.len() <= q.len(),
        forall|k: int| 0 <= k < p.len() ==> prop_matches(#[trigger] p[k], version, name)
            == prop_matches(q[k], version, name),
        forall|k: int| p.len() <= k < q.len() ==> !prop_matches(#[trigger] q[k], version, name),
    ensures
        find_from(p, version, name, i) == find_from(q, version, name, i),
    decreases q.len() - i,
{
    if i < q.len() {
        lemma_find_from_agree(p, q, version, name, i + 1);
    }
}

proof fn lemma_find_from_range(p: Seq<Property>, version: u8, name: Seq<char>, i: int)
    requires
        0 <= i,
    ensures
        find_from(p, version, name, i) == -1 || (i <= find_from(p, version, name, i) < p.len()
            && prop_matches(p[find_from(p, version, name, i)], version, name)),
    decreases p.len() - i,
{
    if i < p.len() {
        lemma_find_from_range(p, version, name, i + 1);
    }
}

proof fn lemma_lookup_unaffected(
    old_objects: Seq<Object>,
    new_objects: Seq<Object>,
    o: int,
    id: int,
    version: u8,
    s1: Seq<char>,
    s2: Seq<char>,
    value: Value,
)
    requires
        version > 6,
        s1 != s2,
        0 <= o < old_objects.len(),
        wrote_property(old_objects, new_objects, o, version, s1, value),
    ensures
        lookup(new_objects, id, version, s2) == lookup(old_objects, id, version, s2),
    decreases id,
{
    if 0 <= id < old_objects.len() {
        if id == o {
            let op = old_objects[o].properties@;
            let np = new_objects[o].properties@;
            let i = own_index(op, version, s1);
            lemma_find_from_range(op, version, s1, 0);
            if i >= 0 && !op[i].read_only {
                assert forall|k: int| 0 <= k < op.len() implies prop_matches(#[trigger] op[k], version, s2)
                    == prop_matches(np[k], version, s2) by {
                    if k == i {
                        assert(op[k].name@ == s1);
                    }
                }
                lemma_find_from_agree(op, np, version, s2, 0);
                lemma_find_from_range(op, version, s2, 0);
                let j = own_index(op, version, s2);
                if j >= 0 {
                    assert(j != i);
                }
            } else if i < 0 {
                assert forall|k: int| 0 <= k < op.len() implies prop_matches(#[trigger] op[k], version, s2)
                    == prop_matches(np[k], version, s2) by {
                    assert(np[k] == np.subrange(0, op.len() as int)[k]);
                }
                assert forall|k: int| op.len() <= k < np.len() implies !prop_matches(#[trigger] np[k], version, s2) by {
                    assert(k == np.len() - 1);
                }
                lemma_find_from_agree(op, np, version, s2, 0);
                lemma_find_from_range(op, version, s2, 0);
                let j = own_index(op, version, s2);
                if j >= 0 {
                    assert(np[j] == np.subrange(0, op.len() as int)[j]);
                }
            }
        }
        match old_objects[id].proto {
            Some(p) => if p.0 < id {
                lemma_lookup_unaffected(old_objects, new_objects, o, p.0 as int, version, s1, s2, value);
            },
            None => {},
        }
    }
}

/// In a file of version 7 or later, distinct identifiers are independent:
/// writing one of them to any object leaves what the other resolves to, from
/// every scope, unchanged.
pub proof fn lemma_case_sensitive_independence(
    scopes: Seq<Scope>,
    old_objects: Seq<Object>,
    new_objects: Seq<Object>,
    o: int,
    sid: int,
    version: u8,
    s1: Seq<char>,
    s2: Seq<char>,
    value: Value,
)
    requires
        version >= 7,
        s1 != s2,
        0 <= o < old_objects.len(),
        wrote_property(old_objects, new_objects, o, version, s1, value),
    ensures
        resolve_in(scopes, new_objects, sid, version, s2) == resolve_in(scopes, old_objects, sid, version, s2),
    decreases sid,
{
    if 0 <= sid < scopes.len() {
        lemma_lookup_unaffected(old_objects, new_objects, o, scopes[sid].binding.0 as int, version, s1, s2, value);
        match scopes[sid].parent {
            Some(p) => if p.0 < sid {
                lemma_case_sensitive_independence(scopes, old_objects, new_objects, o, p.0 as int, version, s1, s2, value);
            },
            None => {},
        }
    }
}


/// Enumeration yields the names of own properties without `dontEnum`, and
/// the name of every such property: nothing from a prototype, nothing hidden,
/// nothing left out.
pub proof fn lemma_enumeration_members(props: Seq<Property>)
    ensures
        forall|k: int| 0 <= k < enumerable_names(props).len() ==> exists|i: int|
            0 <= i < props.len() && !props[i].dont_enum && #[trigger] enumerable_names(props)[k] == props[i].name@,
        forall|i: int| 0 <= i < props.len() && !(#[trigger] props[i]).dont_enum ==> exists|k: int|
            0 <= k < enumerable_names(props).len() && enumerable_names(props)[k] == props[i].name@,
    decreases props.len(),
{
    if props.len() > 0 {
        let d = props.drop_last();
        lemma_enumeration_members(d);
        let e = enumerable_names(props);
        let ed = enumerable_names(d);
        assert forall|k: int| 0 <= k < e.len() implies exists|i: int|
            0 <= i < props.len() && !props[i].dont_enum && #[trigger] e[k] == props[i].name@ by {
            if k < ed.len() {
                assert(e[k] == ed[k]);
                let i = choose|i: int| 0 <= i < d.len() && !d[i].dont_enum && ed[k] == d[i].name@;
                assert(props[i] == d[i]);
            } else {
                assert(e[k] == props[props.len() - 1].name@);
            }
        }
        assert forall|i: int| 0 <= i < props.len() && !(#[trigger] props[i]).dont_enum implies exists|k: int|
            0 <= k < e.len() && e[k] == props[i].name@ by {
            if i < d.len() {
                assert(props[i] == d[i]);
                let k = choose|k: int| 0 <= k < ed.len() && ed[k] == d[i].name@;
                assert(e[k] == ed[k]);
            } else {
                assert(e[e.len() - 1] == props[i].name@);
            }
        }
    }
}

} // verus!
