//! Activation records of the first machine.

use crate::heap::{
    define_target, lemma_case_insensitive_resolution, or_undefined, resolve_in, wrote_property, Heap, Object, RegistersId,
    Scope, ScopeId, ScopeKind,
};
use crate::names::{ascii_fold, name_matches, names_match};
use crate::value::{ObjectId, Value};
use std::sync::Arc;
use vstd::prelude::*;

verus! {

/// Relies on `Arc::clone`: the new handle points to the same allocation, so
/// it holds the same bytes.
#[verifier::external_body]
fn share_buffer(a: &Arc<Vec<u8>>) -> (r: Arc<Vec<u8>>)
    ensures
        r == *a,
{
    a.clone()
}

/// Relies on `Arc::ptr_eq`: handles that point to one allocation hold the
/// same bytes.
#[verifier::external_body]
fn same_allocation(a: &Arc<Vec<u8>>, b: &Arc<Vec<u8>>) -> (r: bool)
    ensures
        r ==> *a == *b,
{
    Arc::ptr_eq(a, b)
}

/// A range of bytecode in a shared buffer. Slices of one buffer alias it.
pub struct SwfSlice {
    pub data: Arc<Vec<u8>>,
    pub start: usize,
    pub end: usize,
}

impl SwfSlice {
    /// Another handle on the same range of the same buffer.
    pub fn share(&self) -> (r: SwfSlice)
        ensures
            r == *self,
    {
        SwfSlice { data: share_buffer(&self.data), start: self.start, end: self.end }
    }

    /// An empty range of a fresh empty buffer.
    pub fn empty() -> (r: SwfSlice)
        ensures
            r.data@.len() == 0,
            r.start == 0,
            r.end == 0,
    {
        SwfSlice { data: Arc::new(Vec::new()), start: 0, end: 0 }
    }
}

/// What `name` means in activation `a`: `this`, the arguments object when
/// there is one, or else what the scope chain resolves it to. The two
/// special names are compared like every other identifier of the version.
pub open spec fn resolved(a: ActivationView, scopes: Seq<Scope>, objects: Seq<Object>, name: Seq<char>) -> Value {
    if names_match(a.swf_version, name, "this"@) {
        Value::Object(a.this)
    } else if names_match(a.swf_version, name, "arguments"@) && a.arguments is Some {
        Value::Object(a.arguments->0)
    } else {
        or_undefined(resolve_in(scopes, objects, a.scope.0 as int, a.swf_version, name))
    }
}

/// Whether `name` means anything in activation `a` (see `resolved`).
pub open spec fn defined(a: ActivationView, scopes: Seq<Scope>, objects: Seq<Object>, name: Seq<char>) -> bool {
    names_match(a.swf_version, name, "this"@) || (names_match(a.swf_version, name, "arguments"@)
        && a.arguments is Some) || resolve_in(scopes, objects, a.scope.0 as int, a.swf_version, name) is Some
}

/// In a file of version 6 or below, two identifiers that are equal once ASCII
/// case is folded away mean the same thing in every activation, the names
/// `this` and `arguments` included.
pub proof fn lemma_activation_resolution_ignores_case(
    a: ActivationView,
    scopes: Seq<Scope>,
    objects: Seq<Object>,
    s1: Seq<char>,
    s2: Seq<char>,
)
    requires
        a.swf_version <= 6,
        ascii_fold(s1) == ascii_fold(s2),
    ensures
        resolved(a, scopes, objects, s1) == resolved(a, scopes, objects, s2),
        defined(a, scopes, objects, s1) == defined(a, scopes, objects, s2),
{
    lemma_case_insensitive_resolution(scopes, objects, a.scope.0 as int, a.swf_version, s1, s2);
}

/// What an activation is, for the proofs.
pub struct ActivationView {
    pub swf_version: u8,
    pub data: SwfSlice,
    pub pc: usize,
    pub scope: ScopeId,
    pub this: ObjectId,
    pub arguments: Option<ObjectId>,
    pub is_function: bool,
    pub local_registers: Option<RegistersId>,
}

/// A single activation of a function or of a block of code.
pub struct Activation {
    swf_version: u8,
    data: SwfSlice,
    pc: usize,
    scope: ScopeId,
    this: ObjectId,
    arguments: Option<ObjectId>,
    is_function: bool,
    local_registers: Option<RegistersId>,
}

impl View for Activation {
    type V = ActivationView;

    closed spec fn view(&self) -> ActivationView {
        ActivationView {
            swf_version: self.swf_version,
            data: self.data,
            pc: self.pc,
            scope: self.scope,
            this: self.this,
            arguments: self.arguments,
            is_function: self.is_function,
            local_registers: self.local_registers,
        }
    }
}

impl Activation {
    /// Every handle of the activation names something in `heap`.
    pub open spec fn valid_in(&self, heap: &Heap) -> bool {
        &&& heap.valid_scope(self@.scope)
        &&& heap.valid_object(self@.this)
        &&& match self@.arguments {
            Some(a) => heap.valid_object(a),
            None => true,
        }
        &&& match self@.local_registers {
            Some(r) => heap.valid_registers(r),
            None => true,
        }
    }

    /// An activation of a block that is not a function body.
    pub fn from_action(
        swf_version: u8,
        code: SwfSlice,
        scope: ScopeId,
        this: ObjectId,
        arguments: Option<ObjectId>,
    ) -> (r: Activation)
        ensures
            r@ == (ActivationView {
                swf_version,
                data: code,
                pc: 0,
                scope,
                this,
                arguments,
                is_function: false,
                local_registers: None,
            }),
    {
        Activation {
            swf_version,
            data: code,
            pc: 0,
            scope,
            this,
            arguments,
            is_function: false,
            local_registers: None,
        }
    }

    /// An activation of a function body.
    pub fn from_function(
        swf_version: u8,
        code: SwfSlice,
        scope: ScopeId,
        this: ObjectId,
        arguments: Option<ObjectId>,
    ) -> (r: Activation)
        ensures
            r@ == (ActivationView {
                swf_version,
                data: code,
                pc: 0,
                scope,
                this,
                arguments,
                is_function: true,
                local_registers: None,
            }),
    {
        Activation {
            swf_version,
            data: code,
            pc: 0,
            scope,
            this,
            arguments,
            is_function: true,
            local_registers: None,
        }
    }

    /// An activation with no code, whose scope is a Local child of a new
    /// global scope over `globals`, and whose `this` is `globals`.
    pub fn from_nothing(swf_version: u8, globals: ObjectId, heap: &mut Heap) -> (r: Activation)
        requires
            old(heap).wf(),
            old(heap).valid_object(globals),
        ensures
            final(heap).wf(),
            r.valid_in(&*final(heap)),
            r@.swf_version == swf_version,
            r@.data.data@.len() == 0,
            r@.data.start == 0,
            r@.data.end == 0,
            r@.pc == 0,
            r@.this == globals,
            r@.arguments is None,
            !r@.is_function,
            r@.local_registers is None,
            final(heap).scope_seq()[r@.scope.0 as int].kind == ScopeKind::Local,
            final(heap).scope_seq()[r@.scope.0 as int].parent == Some(
                ScopeId(old(heap).scope_seq().len() as usize),
            ),
            final(heap).scope_seq()[old(heap).scope_seq().len() as int] == (Scope {
                parent: None,
                binding: globals,
                kind: ScopeKind::Global,
            }),
            r@.scope.0 == old(heap).scope_seq().len() + 1,
            final(heap).scope_seq().len() == old(heap).scope_seq().len() + 2,
            final(heap).scope_seq()[r@.scope.0 as int].binding == ObjectId(old(heap).object_seq().len() as usize),
            final(heap).scope_seq().subrange(0, old(heap).scope_seq().len() as int)
                == old(heap).scope_seq(),
            final(heap).object_seq().len() == old(heap).object_seq().len() + 1,
            final(heap).object_seq().last().properties@.len() == 0,
            final(heap).object_seq().last().proto is None,
            !final(heap).object_seq().last().is_clip,
            final(heap).object_seq().subrange(0, old(heap).object_seq().len() as int)
                == old(heap).object_seq(),
            final(heap).register_seq() == old(heap).register_seq(),
    {
        let global_scope = heap.new_global_scope(globals);
        let ghost mid = heap.scope_seq();
        let child_scope = heap.new_local_scope(global_scope);
        proof {
            assert(heap.scope_seq()[old(heap).scope_seq().len() as int] == mid[old(heap).scope_seq().len() as int]);
            assert(heap.scope_seq().subrange(0, old(heap).scope_seq().len() as int) =~= old(heap).scope_seq());
        }
        Activation {
            swf_version,
            data: SwfSlice::empty(),
            pc: 0,
            scope: child_scope,
            this: globals,
            arguments: None,
            is_function: false,
            local_registers: None,
        }
    }

    /// An activation that runs `code` in `scope` on behalf of this one: it
    /// keeps `this`, the arguments and the register file, starts at offset 0
    /// and is not a function body.
    pub fn to_rescope(&self, code: SwfSlice, scope: ScopeId) -> (r: Activation)
        ensures
            r@ == (ActivationView {
                swf_version: self@.swf_version,
                data: code,
                pc: 0,
                scope,
                this: self@.this,
                arguments: self@.arguments,
                is_function: false,
                local_registers: self@.local_registers,
            }),
    {
        Activation {
            swf_version: self.swf_version,
            data: code,
            pc: 0,
            scope,
            this: self.this,
            arguments: self.arguments,
            is_function: false,
            local_registers: self.local_registers,
        }
    }

    /// The file version that governs this activation's semantics.
    pub fn swf_version(&self) -> (r: u8)
        ensures
            r == self@.swf_version,
    {
        self.swf_version
    }

    /// The code this activation runs.
    pub fn data(&self) -> (r: SwfSlice)
        ensures
            r == self@.data,
    {
        self.data.share()
    }

    /// Replaces the code being run.
    pub fn set_data(&mut self, new_data: SwfSlice)
        ensures
            final(self)@ == (ActivationView { data: new_data, ..old(self)@ }),
    {
        self.data = new_data;
    }

    /// Whether `other` lies in the same buffer as this activation's code,
    /// that is, whether it belongs to the same function.
    pub fn is_identical_fn(&self, other: &SwfSlice) -> (r: bool)
        ensures
            r ==> self@.data.data == other.data,
    {
        same_allocation(&self.data.data, &other.data)
    }

    /// The offset of the next instruction.
    pub fn pc(&self) -> (r: usize)
        ensures
            r == self@.pc,
    {
        self.pc
    }

    /// Moves to offset `new_pc`.
    pub fn set_pc(&mut self, new_pc: usize)
        ensures
            final(self)@ == (ActivationView { pc: new_pc, ..old(self)@ }),
    {
        self.pc = new_pc;
    }

    /// The innermost scope of this activation.
    pub fn scope(&self, heap: &Heap) -> (r: Scope)
        requires
            self.valid_in(heap),
        ensures
            r == heap.scope_seq()[self@.scope.0 as int],
    {
        heap.scope(self.scope)
    }

    /// The handle of the innermost scope.
    pub fn scope_cell(&self) -> (r: ScopeId)
        ensures
            r == self@.scope,
    {
        self.scope
    }

    /// Replaces the innermost scope.
    pub fn set_scope(&mut self, scope: ScopeId)
        ensures
            final(self)@ == (ActivationView { scope, ..old(self)@ }),
    {
        self.scope = scope;
    }

    /// Whether reaching the end of the code returns from a function, rather
    /// than ending a block.
    pub fn can_implicit_return(&self) -> (r: bool)
        ensures
            r == self@.is_function,
    {
        self.is_function
    }

    /// What `name` means here: `this`, the arguments object when there is
    /// one, or else what the scope chain resolves it to.
    pub fn resolve(&self, name: &str, heap: &Heap) -> (r: Value)
        requires
            heap.wf(),
            self.valid_in(heap),
        ensures
            r == resolved(self@, heap.scope_seq(), heap.object_seq(), name@),
    {
        if name_matches(self.swf_version, name, "this") {
            return Value::Object(self.this);
        }
        if name_matches(self.swf_version, name, "arguments") {
            if let Some(a) = self.arguments {
                return Value::Object(a);
            }
        }
        heap.resolve(self.scope, self.swf_version, name)
    }

    /// Whether `name` means anything here (see `resolve`).
    pub fn is_defined(&self, name: &str, heap: &Heap) -> (r: bool)
        requires
            heap.wf(),
            self.valid_in(heap),
        ensures
            r == defined(self@, heap.scope_seq(), heap.object_seq(), name@),
    {
        if name_matches(self.swf_version, name, "this") {
            return true;
        }
        if name_matches(self.swf_version, name, "arguments") && self.arguments.is_some() {
            return true;
        }
        heap.is_defined(self.scope, self.swf_version, name)
    }

    /// Defines a local variable (see `Heap::define`).
    pub fn define(&self, name: &str, value: Value, heap: &mut Heap)
        requires
            old(heap).wf(),
            self.valid_in(&*old(heap)),
        ensures
            final(heap).wf(),
            wrote_property(
                old(heap).object_seq(),
                final(heap).object_seq(),
                old(heap).scope_seq()[define_target(old(heap).scope_seq(), self@.scope.0 as int)].binding.0 as int,
                self@.swf_version,
                name@,
                value,
            ),
            final(heap).scope_seq() == old(heap).scope_seq(),
            final(heap).register_seq() == old(heap).register_seq(),
    {
        heap.define(self.scope, self.swf_version, name, value)
    }

    /// The object that `this` stands for.
    pub fn this_cell(&self) -> (r: ObjectId)
        ensures
            r == self@.this,
    {
        self.this
    }

    /// Whether this activation has a register file of its own.
    pub fn has_local_registers(&self) -> (r: bool)
        ensures
            r == self@.local_registers is Some,
    {
        self.local_registers.is_some()
    }

    /// Gives this activation a new register file of `num` registers, all
    /// `Undefined`.
    pub fn allocate_local_registers(&mut self, num: u8, heap: &mut Heap)
        requires
            old(heap).wf(),
        ensures
            final(heap).wf(),
            final(heap).register_seq() == old(heap).register_seq().push(
                Seq::new(num as nat, |_i: int| Value::Undefined),
            ),
            final(heap).object_seq() == old(heap).object_seq(),
            final(heap).scope_seq() == old(heap).scope_seq(),
            final(self)@ == (ActivationView {
                local_registers: Some(RegistersId(old(heap).register_seq().len() as usize)),
                ..old(self)@
            }),
    {
        let r = heap.allocate_registers(num);
        self.local_registers = Some(r);
    }

    /// Local register `id`; `Undefined` when there is no register file or no
    /// such register in it.
    pub fn local_register(&self, id: u8, heap: &Heap) -> (r: Value)
        requires
            self.valid_in(heap),
        ensures
            r == (match self@.local_registers {
                Some(f) => if (id as int) < heap.register_seq()[f.0 as int].len() {
                    heap.register_seq()[f.0 as int][id as int]
                } else {
                    Value::Undefined
                },
                None => Value::Undefined,
            }),
    {
        match self.local_registers {
            Some(f) => heap.register(f, id),
            None => Value::Undefined,
        }
    }

    /// Stores `value` in local register `id`; nothing changes when there is
    /// no register file or no such register in it.
    pub fn set_local_register(&self, id: u8, value: Value, heap: &mut Heap)
        requires
            old(heap).wf(),
            self.valid_in(&*old(heap)),
        ensures
            final(heap).wf(),
            final(heap).register_seq() == (match self@.local_registers {
                Some(f) => if (id as int) < old(heap).register_seq()[f.0 as int].len() {
                    old(heap).register_seq().update(
                        f.0 as int,
                        old(heap).register_seq()[f.0 as int].update(id as int, value),
                    )
                } else {
                    old(heap).register_seq()
                },
                None => old(heap).register_seq(),
            }),
            final(heap).object_seq() == old(heap).object_seq(),
            final(heap).scope_seq() == old(heap).scope_seq(),
    {
        match self.local_registers {
            Some(f) => heap.set_register(f, id, value),
            None => {},
        }
    }
}

} // verus!
