//! The driver of the first machine: its heap, its stack of activations and
//! the lines that `trace` has emitted.

use crate::activation::Activation;
use crate::heap::{Heap, Scope, ScopeKind};
use crate::value::ObjectId;
use vstd::prelude::*;

verus! {

/// A first-machine instance.
pub struct Avm1 {
    /// Every object, scope and register file.
    pub heap: Heap,
    swf_version: u8,
    globals: ObjectId,
    stack: Vec<Activation>,
    trace_log: Vec<String>,
}

impl Avm1 {
    pub closed spec fn heap_spec(&self) -> Heap {
        self.heap
    }

    pub closed spec fn version_spec(&self) -> u8 {
        self.swf_version
    }

    pub closed spec fn globals_spec(&self) -> ObjectId {
        self.globals
    }

    pub closed spec fn stack_spec(&self) -> Seq<Activation> {
        self.stack@
    }

    pub closed spec fn trace_spec(&self) -> Seq<Seq<char>> {
        self.trace_log@.map_values(|s: String| s@)
    }

    /// The heap is well formed, and the global object and every frame on the
    /// stack live in it.
    pub open spec fn wf(&self) -> bool {
        &&& self.heap_spec().wf()
        &&& self.heap_spec().valid_object(self.globals_spec())
        &&& forall|i: int| 0 <= i < self.stack_spec().len() ==> (#[trigger] self.stack_spec()[i]).valid_in(&self.heap_spec())
    }

    /// A machine for files of `swf_version` with a fresh global object, no
    /// frames and no output.
    pub fn new(swf_version: u8) -> (r: Avm1)
        ensures
            r.wf(),
            r.version_spec() == swf_version,
            r.stack_spec().len() == 0,
            r.trace_spec().len() == 0,
            r.heap_spec().object_seq().len() == 1,
            r.globals_spec() == ObjectId(0),
    {
        let mut heap = Heap::new();
        let globals = heap.new_object(None);
        let r = Avm1 { heap, swf_version, globals, stack: Vec::new(), trace_log: Vec::new() };
        assert(r.trace_spec() =~= Seq::empty());
        r
    }

    /// The version of the file this machine runs.
    pub fn swf_version(&self) -> (r: u8)
        ensures
            r == self.version_spec(),
    {
        self.swf_version
    }

    /// The global object.
    pub fn global_object_cell(&self) -> (r: ObjectId)
        ensures
            r == self.globals_spec(),
    {
        self.globals
    }

    /// Pushes `frame`, which then runs.
    pub fn insert_stack_frame(&mut self, frame: Activation)
        requires
            old(self).wf(),
            frame.valid_in(&old(self).heap_spec()),
        ensures
            final(self).wf(),
            final(self).stack_spec() == old(self).stack_spec().push(frame),
            final(self).heap_spec() == old(self).heap_spec(),
            final(self).globals_spec() == old(self).globals_spec(),
            final(self).version_spec() == old(self).version_spec(),
            final(self).trace_spec() == old(self).trace_spec(),
    {
        self.stack.push(frame);
        proof {
            assert forall|i: int| 0 <= i < self.stack_spec().len() implies (#[trigger] self.stack_spec()[i]).valid_in(
                &self.heap_spec(),
            ) by {
                if i < old(self).stack_spec().len() {
                    assert(self.stack_spec()[i] == old(self).stack_spec()[i]);
                }
            }
        }
    }

    /// Pops the running frame, if any.
    pub fn retire_stack_frame(&mut self) -> (r: Option<Activation>)
        requires
            old(self).wf(),
        ensures
            final(self).wf(),
            old(self).stack_spec().len() == 0 ==> r is None && final(self).stack_spec() == old(self).stack_spec(),
            old(self).stack_spec().len() > 0 ==> r == Some(old(self).stack_spec().last())
                && final(self).stack_spec() == old(self).stack_spec().drop_last(),
            final(self).heap_spec() == old(self).heap_spec(),
            final(self).globals_spec() == old(self).globals_spec(),
            final(self).version_spec() == old(self).version_spec(),
            final(self).trace_spec() == old(self).trace_spec(),
    {
        let r = self.stack.pop();
        proof {
            if old(self).stack_spec().len() > 0 {
                assert(self.stack_spec() =~= old(self).stack_spec().drop_last());
            }
        }
        r
    }

    /// The running frame, if any.
    pub fn current_stack_frame(&self) -> (r: Option<&Activation>)
        ensures
            self.stack_spec().len() == 0 ==> r is None,
            self.stack_spec().len() > 0 ==> r == Some(&self.stack_spec().last()),
    {
        if self.stack.len() == 0 {
            None
        } else {
            Some(&self.stack[self.stack.len() - 1])
        }
    }

    /// The number of frames on the stack.
    pub fn stack_depth(&self) -> (r: usize)
        ensures
            r == self.stack_spec().len(),
    {
        self.stack.len()
    }

    /// Emits one line on the trace channel.
    pub fn trace(&mut self, line: String)
        ensures
            final(self).trace_spec() == old(self).trace_spec().push(line@),
            final(self).heap_spec() == old(self).heap_spec(),
            final(self).stack_spec() == old(self).stack_spec(),
            final(self).globals_spec() == old(self).globals_spec(),
            final(self).version_spec() == old(self).version_spec(),
    {
        self.trace_log.push(line);
        assert(self.trace_spec() =~= old(self).trace_spec().push(line@));
    }

    /// The lines emitted so far, oldest first.
    pub fn trace_output(&self) -> (r: &Vec<String>)
        ensures
            r@.map_values(|s: String| s@) == self.trace_spec(),
    {
        &self.trace_log
    }
}

/// A machine as `with_avm` hands it to its test: well formed, for files of
/// `swf_version`, with one frame as `Activation::from_nothing` builds it over
/// the global object (no code, offset 0, not a function body, no arguments
/// and no registers, running in a Local scope that binds a fresh empty
/// object, whose parent is the Global scope of the global object), and with
/// `this` the object of a movie clip in its heap.
pub open spec fn prepared(avm: Avm1, swf_version: u8, this: ObjectId) -> bool {
    let f = avm.stack_spec()[0]@;
    let heap = avm.heap_spec();
    let local = heap.scope_seq()[f.scope.0 as int];
    &&& avm.wf()
    &&& avm.version_spec() == swf_version
    &&& avm.stack_spec().len() == 1
    &&& f.this == avm.globals_spec()
    &&& f.swf_version == swf_version
    &&& f.pc == 0
    &&& f.data.data@.len() == 0
    &&& f.data.start == 0
    &&& f.data.end == 0
    &&& !f.is_function
    &&& f.arguments is None
    &&& f.local_registers is None
    &&& local.kind == ScopeKind::Local
    &&& local.binding != avm.globals_spec()
    &&& heap.valid_object(local.binding)
    &&& heap.object_seq()[local.binding.0 as int].properties@.len() == 0
    &&& heap.object_seq()[local.binding.0 as int].proto is None
    &&& local.parent matches Some(g) && heap.valid_scope(g) && heap.scope_seq()[g.0 as int] == (Scope {
        parent: None,
        binding: avm.globals_spec(),
        kind: ScopeKind::Global,
    })
    &&& avm.heap_spec().valid_object(this)
    &&& avm.heap_spec().object_seq()[this.0 as int].is_clip
    &&& avm.trace_spec().len() == 0
}

/// Runs `test` on a machine for files of `swf_version` that has one frame
/// with no code, and on the object of a fresh root clip.
pub fn with_avm<F, R>(swf_version: u8, test: F) -> (r: R)
    where
        F: FnOnce(Avm1, ObjectId) -> R,
    requires
        forall|avm: Avm1, this: ObjectId| prepared(avm, swf_version, this) ==> test.requires((avm, this)),
    ensures
        exists|avm: Avm1, this: ObjectId| prepared(avm, swf_version, this) && test.ensures((avm, this), r),
{
    let mut avm = Avm1::new(swf_version);
    let globals = avm.global_object_cell();
    let frame = Activation::from_nothing(swf_version, globals, &mut avm.heap);
    proof {
        assert forall|i: int| 0 <= i < avm.stack_spec().len() implies (#[trigger] avm.stack_spec()[i]).valid_in(&avm.heap_spec()) by {}
    }
    avm.insert_stack_frame(frame);
    let ghost before = avm.heap_spec().object_seq();
    let this = avm.heap.new_clip_object(None);
    proof {
        let b = avm.heap_spec().scope_seq()[frame@.scope.0 as int].binding.0 as int;
        assert(avm.heap_spec().object_seq()[b] == avm.heap_spec().object_seq().subrange(0, before.len() as int)[b]);
    }
    proof {
        assert forall|i: int| 0 <= i < avm.stack_spec().len() implies (#[trigger] avm.stack_spec()[i]).valid_in(&avm.heap_spec()) by {
            assert(avm.stack_spec()[i] == frame);
        }
    }
    assert(avm.stack_spec()[0] == frame);
    assert(prepared(avm, swf_version, this));
    let ghost given = avm;
    let r = test(avm, this);
    assert(prepared(given, swf_version, this) && test.ensures((given, this), r));
    r
}

} // verus!
