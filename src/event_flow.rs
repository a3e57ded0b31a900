//! The path of one event: which listeners it visits, on which nodes, in
//! which order, and where propagation stops.

use crate::dispatch::{phase_regs, DispatchList, EventPhase, Registration};
use crate::value::ObjectId;
use vstd::prelude::*;

verus! {

/// One listener call of an event's flow.
#[derive(Clone, Copy, Debug, PartialEq, Eq, Structural)]
pub struct Invocation {
    /// Position of the node on the path, the root being 0.
    pub node: usize,
    pub phase: EventPhase,
    pub listener: ObjectId,
}

/// What a listener asked for when it returned.
#[derive(Clone, Copy, Debug, PartialEq, Eq, Structural)]
pub enum Propagation {
    Continue,
    StopPropagation,
    StopImmediatePropagation,
}

/// The calls made on node `node` in `phase`.
pub open spec fn node_calls(ls: Seq<Seq<Registration>>, node: int, t: Seq<char>, phase: EventPhase) -> Seq<Invocation> {
    phase_regs(ls[node], t, phase).map_values(
        |r: Registration| Invocation { node: node as usize, phase, listener: r.listener },
    )
}

/// Capture-phase calls on nodes `0..k`, root first.
pub open spec fn capture_calls(ls: Seq<Seq<Registration>>, t: Seq<char>, k: int) -> Seq<Invocation>
    decreases k,
{
    if k <= 0 {
        Seq::empty()
    } else {
        capture_calls(ls, t, k - 1) + node_calls(ls, k - 1, t, EventPhase::Capturing)
    }
}

/// Bubble-phase calls on nodes `0..k`, node `k - 1` first.
pub open spec fn bubble_calls(ls: Seq<Seq<Registration>>, t: Seq<char>, k: int) -> Seq<Invocation>
    decreases k,
{
    if k <= 0 {
        Seq::empty()
    } else {
        node_calls(ls, k - 1, t, EventPhase::Bubbling) + bubble_calls(ls, t, k - 1)
    }
}

/// All calls of an event of type `t` along a path whose last node is the
/// target: capturing listeners of the ancestors from the root down, all
/// listeners of the target, then, for a bubbling event, non-capturing
/// listeners of the ancestors back up to the root.
pub open spec fn flow(ls: Seq<Seq<Registration>>, t: Seq<char>, bubbles: bool) -> Seq<Invocation> {
    if ls.len() == 0 {
        Seq::empty()
    } else {
        let n = ls.len() - 1;
        capture_calls(ls, t, n) + node_calls(ls, n, t, EventPhase::AtTarget) + if bubbles {
            bubble_calls(ls, t, n)
        } else {
            Seq::empty()
        }
    }
}

pub open spec fn lists_view(path: Seq<DispatchList>) -> Seq<Seq<Registration>> {
    path.map_values(|d: DispatchList| d@)
}

fn append_node_calls(
    out: &mut Vec<Invocation>,
    list: &DispatchList,
    node: usize,
    event: &str,
    phase: EventPhase,
)
    ensures
        final(out)@ == old(out)@ + phase_regs(list@, event@, phase).map_values(
            |r: Registration| Invocation { node, phase, listener: r.listener },
        ),
{
    let ls = list.listeners_for(event, phase);
    let ghost regs = phase_regs(list@, event@, phase);
    let mut i: usize = 0;
    while i < ls.len()
        invariant
            i <= ls@.len(),
            ls@ == regs.map_values(|x: Registration| x.listener),
            out@ == old(out)@ + regs.subrange(0, i as int).map_values(
                |r: Registration| Invocation { node, phase, listener: r.listener },
            ),
        decreases ls@.len() - i,
    {
        out.push(Invocation { node, phase, listener: ls[i] });
        assert(regs.subrange(0, i as int + 1).map_values(
            |r: Registration| Invocation { node, phase, listener: r.listener },
        ) =~= regs.subrange(0, i as int).map_values(
            |r: Registration| Invocation { node, phase, listener: r.listener },
        ).push(Invocation { node, phase, listener: ls@[i as int] }));
        i = i + 1;
    }
    assert(regs.subrange(0, i as int) =~= regs);
}

/// Every listener call of an event of type `event` along `path`, whose first
/// node is the root and whose last node is the target, in order (see `flow`).
pub fn event_flow(path: &Vec<DispatchList>, event: &str, bubbles: bool) -> (r: Vec<Invocation>)
    ensures
        r@ == flow(lists_view(path@), event@, bubbles),
{
    let ghost ls = lists_view(path@);
    let mut out: Vec<Invocation> = Vec::new();
    if path.len() == 0 {
        assert(out@ =~= flow(ls, event@, bubbles));
        return out;
    }
    let n = path.len() - 1;
    let mut k: usize = 0;
    while k < n
        invariant
            k <= n,
            n == path@.len() - 1,
            ls == lists_view(path@),
            out@ == capture_calls(ls, event@, k as int),
        decreases n - k,
    {
        append_node_calls(&mut out, &path[k], k, event, EventPhase::Capturing);
        proof {
            lemma_node_calls_of_path(ls, path@, k as int, event@, EventPhase::Capturing);
        }
        k = k + 1;
    }
    append_node_calls(&mut out, &path[n], n, event, EventPhase::AtTarget);
    proof {
        lemma_node_calls_of_path(ls, path@, n as int, event@, EventPhase::AtTarget);
    }
    let ghost front = out@;
    if bubbles {
        let mut k: usize = n;
        while k > 0
            invariant
                k <= n,
                n == path@.len() - 1,
                ls == lists_view(path@),
                out@ + bubble_calls(ls, event@, k as int) == front + bubble_calls(ls, event@, n as int),
            decreases k,
        {
            let ghost before = out@;
            append_node_calls(&mut out, &path[k - 1], k - 1, event, EventPhase::Bubbling);
            proof {
                lemma_node_calls_of_path(ls, path@, k - 1, event@, EventPhase::Bubbling);
            }
            assert(out@ + bubble_calls(ls, event@, k - 1) =~= before + bubble_calls(ls, event@, k as int));
            k = k - 1;
        }
        assert(out@ =~= out@ + bubble_calls(ls, event@, 0));
    } else {
        assert(out@ =~= front + Seq::<Invocation>::empty());
    }
    out
}

proof fn lemma_node_calls_of_path(
    ls: Seq<Seq<Registration>>,
    path: Seq<DispatchList>,
    k: int,
    t: Seq<char>,
    phase: EventPhase,
)
    requires
        ls == lists_view(path),
        0 <= k < path.len(),
    ensures
        node_calls(ls, k, t, phase) == phase_regs(path[k]@, t, phase).map_values(
            |r: Registration| Invocation { node: k as usize, phase, listener: r.listener },
        ),
{
}

/// The position of a phase in an event's flow.
pub open spec fn phase_rank(p: EventPhase) -> int {
    match p {
        EventPhase::Capturing => 0,
        EventPhase::AtTarget => 1,
        EventPhase::Bubbling => 2,
    }
}

proof fn lemma_node_calls_shape(ls: Seq<Seq<Registration>>, node: int, t: Seq<char>, phase: EventPhase)
    requires
        0 <= node <= usize::MAX,
    ensures
        forall|i: int| 0 <= i < node_calls(ls, node, t, phase).len() ==> (#[trigger] node_calls(ls, node, t, phase)[i]).phase
            == phase && node_calls(ls, node, t, phase)[i].node as int == node,
{
}

proof fn lemma_capture_calls_shape(ls: Seq<Seq<Registration>>, t: Seq<char>, k: int)
    requires
        0 <= k <= usize::MAX,
    ensures
        forall|i: int| 0 <= i < capture_calls(ls, t, k).len() ==> (#[trigger] capture_calls(ls, t, k)[i]).phase
            == EventPhase::Capturing && (capture_calls(ls, t, k)[i].node as int) < k,
        forall|i: int, j: int| 0 <= i < j < capture_calls(ls, t, k).len() ==> (#[trigger] capture_calls(ls, t, k)[i]).node
            <= (#[trigger] capture_calls(ls, t, k)[j]).node,
    decreases k,
{
    if k > 0 {
        lemma_capture_calls_shape(ls, t, k - 1);
        lemma_node_calls_shape(ls, k - 1, t, EventPhase::Capturing);
        let a = capture_calls(ls, t, k - 1);
        let b = node_calls(ls, k - 1, t, EventPhase::Capturing);
        let c = capture_calls(ls, t, k);
        assert(c == a + b);
        assert forall|i: int| 0 <= i < c.len() implies (#[trigger] c[i]).phase == EventPhase::Capturing && (c[i].node as int)
            < k by {
            if i >= a.len() {
                assert(c[i] == b[i - a.len()]);
            }
        }
        assert forall|i: int, j: int| 0 <= i < j < c.len() implies (#[trigger] c[i]).node <= (#[trigger] c[j]).node by {
            if j >= a.len() {
                assert(c[j] == b[j - a.len()]);
                if i >= a.len() {
                    assert(c[i] == b[i - a.len()]);
                }
            }
        }
    }
}

proof fn lemma_bubble_calls_shape(ls: Seq<Seq<Registration>>, t: Seq<char>, k: int)
    requires
        0 <= k <= usize::MAX,
    ensures
        forall|i: int| 0 <= i < bubble_calls(ls, t, k).len() ==> (#[trigger] bubble_calls(ls, t, k)[i]).phase
            == EventPhase::Bubbling && (bubble_calls(ls, t, k)[i].node as int) < k,
        forall|i: int, j: int| 0 <= i < j < bubble_calls(ls, t, k).len() ==> (#[trigger] bubble_calls(ls, t, k)[i]).node
            >= (#[trigger] bubble_calls(ls, t, k)[j]).node,
    decreases k,
{
    if k > 0 {
        lemma_bubble_calls_shape(ls, t, k - 1);
        lemma_node_calls_shape(ls, k - 1, t, EventPhase::Bubbling);
        let a = node_calls(ls, k - 1, t, EventPhase::Bubbling);
        let b = bubble_calls(ls, t, k - 1);
        let c = bubble_calls(ls, t, k);
        assert(c == a + b);
        assert forall|i: int| 0 <= i < c.len() implies (#[trigger] c[i]).phase == EventPhase::Bubbling && (c[i].node as int)
            < k by {
            if i >= a.len() {
                assert(c[i] == b[i - a.len()]);
            }
        }
        assert forall|i: int, j: int| 0 <= i < j < c.len() implies (#[trigger] c[i]).node >= (#[trigger] c[j]).node by {
            if i >= a.len() {
                assert(c[i] == b[i - a.len()]);
                assert(c[j] == b[j - a.len()]);
            } else if j >= a.len() {
                assert(c[j] == b[j - a.len()]);
            }
        }
    }
}

/// The calls of an event come phase by phase: capture, then at-target, then
/// bubble. Capture calls go to the target's ancestors, root first; the
/// at-target calls go to the target; bubble calls go to the ancestors from
/// the target's parent back to the root, and only for a bubbling event.
pub proof fn lemma_flow_order(ls: Seq<Seq<Registration>>, t: Seq<char>, bubbles: bool)
    requires
        0 < ls.len() <= usize::MAX,
    ensures
        ({
            let f = flow(ls, t, bubbles);
            let n = ls.len() - 1;
            &&& forall|i: int, j: int| 0 <= i < j < f.len() ==> phase_rank((#[trigger] f[i]).phase) <= phase_rank(
                (#[trigger] f[j]).phase,
            )
            &&& forall|i: int| 0 <= i < f.len() && (#[trigger] f[i]).phase == EventPhase::Capturing ==> (f[i].node as int) < n
            &&& forall|i: int| 0 <= i < f.len() && (#[trigger] f[i]).phase == EventPhase::AtTarget ==> f[i].node as int == n
            &&& forall|i: int| 0 <= i < f.len() && (#[trigger] f[i]).phase == EventPhase::Bubbling ==> (f[i].node as int) < n
                && bubbles
            &&& forall|i: int, j: int|
                0 <= i < j < f.len() && (#[trigger] f[i]).phase == EventPhase::Capturing && (#[trigger] f[j]).phase
                    == EventPhase::Capturing ==> f[i].node <= f[j].node
            &&& forall|i: int, j: int|
                0 <= i < j < f.len() && (#[trigger] f[i]).phase == EventPhase::Bubbling && (#[trigger] f[j]).phase
                    == EventPhase::Bubbling ==> f[i].node >= f[j].node
        }),
{
    let n = ls.len() - 1;
    lemma_capture_calls_shape(ls, t, n);
    lemma_node_calls_shape(ls, n, t, EventPhase::AtTarget);
    lemma_bubble_calls_shape(ls, t, n);
    let a = capture_calls(ls, t, n);
    let b = node_calls(ls, n, t, EventPhase::AtTarget);
    let c: Seq<Invocation> = if bubbles {
        bubble_calls(ls, t, n)
    } else {
        Seq::empty()
    };
    let f = flow(ls, t, bubbles);
    assert(f == a + b + c);
    assert forall|i: int| 0 <= i < f.len() implies ((#[trigger] f[i]) == (if i < a.len() {
        a[i]
    } else if i < a.len() + b.len() {
        b[i - a.len()]
    } else {
        c[i - a.len() - b.len()]
    })) && (i < a.len() ==> f[i].phase == EventPhase::Capturing) && (a.len() <= i < a.len() + b.len()
        ==> f[i].phase == EventPhase::AtTarget) && (i >= a.len() + b.len() ==> f[i].phase == EventPhase::Bubbling
        && bubbles) by {
        if i >= a.len() + b.len() {
            assert(c[i - a.len() - b.len()] == f[i]);
        }
    }
}

/// The call that follows call `current` of `plan`, given what its listener
/// asked for: the next call, unless propagation was stopped. After
/// `StopPropagation` the calls left on the same node in the same phase are
/// still made; after `StopImmediatePropagation` none is.
pub open spec fn next_call(plan: Seq<Invocation>, current: int, signal: Propagation) -> Option<int> {
    if current + 1 >= plan.len() {
        None
    } else {
        match signal {
            Propagation::Continue => Some(current + 1),
            Propagation::StopPropagation => if plan[current + 1].node == plan[current].node
                && plan[current + 1].phase == plan[current].phase {
                Some(current + 1)
            } else {
                None
            },
            Propagation::StopImmediatePropagation => None,
        }
    }
}

/// After a listener asks for `StopImmediatePropagation`, no further call of
/// the event is made, on its node or on any later one.
pub proof fn lemma_stop_immediate_ends_flow(plan: Seq<Invocation>, current: int)
    ensures
        next_call(plan, current, Propagation::StopImmediatePropagation) is None,
{
}

/// The index of the call that follows call `current` (see `next_call`).
pub fn next_invocation(plan: &Vec<Invocation>, current: usize, signal: Propagation) -> (r: Option<usize>)
    requires
        current < plan@.len(),
    ensures
        r matches Some(i) ==> next_call(plan@, current as int, signal) == Some(i as int),
        r is None ==> next_call(plan@, current as int, signal) is None,
{
    if current >= plan.len() - 1 {
        return None;
    }
    match signal {
        Propagation::Continue => Some(current + 1),
        Propagation::StopPropagation => {
            if plan[current + 1].node == plan[current].node && plan[current + 1].phase == plan[current].phase {
                Some(current + 1)
            } else {
                None
            }
        },
        Propagation::StopImmediatePropagation => None,
    }
}

} // verus!
