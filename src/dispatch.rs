//! Event listener registries of the second machine, and the order in which
//! one event visits the listeners along a path of nodes.

use crate::names::name_matches;
use crate::value::ObjectId;
use vstd::prelude::*;

verus! {

/// A listener registered for one event type.
pub struct EventHandler {
    pub event_type: String,
    pub listener: ObjectId,
    pub use_capture: bool,
    pub priority: i32,
}

/// What a registration is, for the proofs.
pub struct Registration {
    pub event_type: Seq<char>,
    pub listener: ObjectId,
    pub use_capture: bool,
    pub priority: i32,
}

pub open spec fn reg_of(h: EventHandler) -> Registration {
    Registration {
        event_type: h.event_type@,
        listener: h.listener,
        use_capture: h.use_capture,
        priority: h.priority,
    }
}

pub open spec fn is_triple(r: Registration, t: Seq<char>, l: ObjectId, c: bool) -> bool {
    r.event_type == t && r.listener == l && r.use_capture == c
}

/// Within one event type, priorities never rise along the list, and no
/// (type, listener, capture flag) triple occurs twice.
pub open spec fn well_ordered(s: Seq<Registration>) -> bool {
    &&& forall|i: int, j: int|
        0 <= i < j < s.len() && (#[trigger] s[i]).event_type == (#[trigger] s[j]).event_type
            ==> s[i].priority >= s[j].priority
    &&& forall|i: int, j: int|
        0 <= i < j < s.len() ==> !is_triple(#[trigger] s[j], (#[trigger] s[i]).event_type, s[i].listener, s[i].use_capture)
}

/// Index of the first registration at or after `i` of the triple, or -1.
pub open spec fn triple_from(s: Seq<Registration>, t: Seq<char>, l: ObjectId, c: bool, i: int) -> int
    decreases s.len() - i,
{
    if i < 0 || i >= s.len() {
        -1
    } else if is_triple(s[i], t, l, c) {
        i
    } else {
        triple_from(s, t, l, c, i + 1)
    }
}

pub open spec fn find_triple(s: Seq<Registration>, t: Seq<char>, l: ObjectId, c: bool) -> int {
    triple_from(s, t, l, c, 0)
}

/// Index of the first registration at or after `i` of type `t` with a
/// priority below `p`, or the length of `s`.
pub open spec fn lower_from(s: Seq<Registration>, t: Seq<char>, p: i32, i: int) -> int
    decreases s.len() - i,
{
    if i < 0 || i >= s.len() {
        s.len() as int
    } else if s[i].event_type == t && s[i].priority < p {
        i
    } else {
        lower_from(s, t, p, i + 1)
    }
}

/// Where a new registration of type `t` and priority `p` goes: after every
/// registration of that type whose priority is at least `p`.
pub open spec fn insert_point(s: Seq<Registration>, t: Seq<char>, p: i32) -> int {
    lower_from(s, t, p, 0)
}

/// `s` without the triple.
pub open spec fn removed(s: Seq<Registration>, t: Seq<char>, l: ObjectId, c: bool) -> Seq<Registration> {
    let k = find_triple(s, t, l, c);
    if k >= 0 {
        s.remove(k)
    } else {
        s
    }
}

/// `s` after registering the triple at priority `p`: unchanged when it is
/// there at that priority already, else the triple is taken out and put in
/// at its place for `p`.
pub open spec fn added(s: Seq<Registration>, t: Seq<char>, l: ObjectId, c: bool, p: i32) -> Seq<Registration> {
    let k = find_triple(s, t, l, c);
    if k >= 0 && s[k].priority == p {
        s
    } else {
        let r = removed(s, t, l, c);
        r.insert(
            insert_point(r, t, p),
            Registration { event_type: t, listener: l, use_capture: c, priority: p },
        )
    }
}

/// The phase in which an event reaches a node.
#[derive(Clone, Copy, Debug, PartialEq, Eq, Structural)]
pub enum EventPhase {
    Capturing,
    AtTarget,
    Bubbling,
}

/// Whether registration `r` is invoked for an event of type `t` in `phase`.
pub open spec fn selected(r: Registration, t: Seq<char>, phase: EventPhase) -> bool {
    r.event_type == t && match phase {
        EventPhase::Capturing => r.use_capture,
        EventPhase::AtTarget => true,
        EventPhase::Bubbling => !r.use_capture,
    }
}

/// The registrations invoked for type `t` in `phase`, in list order.
pub open spec fn phase_regs(s: Seq<Registration>, t: Seq<char>, phase: EventPhase) -> Seq<Registration>
    decreases s.len(),
{
    if s.len() == 0 {
        Seq::empty()
    } else {
        let rest = phase_regs(s.drop_last(), t, phase);
        if selected(s.last(), t, phase) {
            rest.push(s.last())
        } else {
            rest
        }
    }
}

/// The listeners registered on one object.
pub struct DispatchList {
    handlers: Vec<EventHandler>,
}

impl View for DispatchList {
    type V = Seq<Registration>;

    closed spec fn view(&self) -> Seq<Registration> {
        self.handlers@.map_values(|h: EventHandler| reg_of(h))
    }
}

impl DispatchList {
    /// A list with no listeners.
    pub fn new() -> (r: DispatchList)
        ensures
            r@ == Seq::<Registration>::empty(),
            well_ordered(r@),
    {
        let r = DispatchList { handlers: Vec::new() };
        assert(r@ =~= Seq::<Registration>::empty());
        r
    }

    fn find_handler(&self, event: &str, listener: ObjectId, use_capture: bool) -> (r: Option<usize>)
        ensures
            match r {
                Some(k) => k as int == find_triple(self@, event@, listener, use_capture) && k < self@.len(),
                None => find_triple(self@, event@, listener, use_capture) == -1,
            },
    {
        let mut i: usize = 0;
        while i < self.handlers.len()
            invariant
                i <= self@.len(),
                self@.len() == self.handlers@.len(),
                find_triple(self@, event@, listener, use_capture) == triple_from(
                    self@,
                    event@,
                    listener,
                    use_capture,
                    i as int,
                ),
            decreases self@.len() - i,
        {
            let h = &self.handlers[i];
            assert(reg_of(*h) == self@[i as int]);
            if h.listener == listener && h.use_capture == use_capture && name_matches(
                7,
                h.event_type.as_str(),
                event,
            ) {
                return Some(i);
            }
            i = i + 1;
        }
        None
    }

    fn find_insert_point(&self, event: &str, priority: i32) -> (r: usize)
        ensures
            r as int == insert_point(self@, event@, priority),
    {
        let mut i: usize = 0;
        while i < self.handlers.len()
            invariant
                i <= self@.len(),
                self@.len() == self.handlers@.len(),
                insert_point(self@, event@, priority) == lower_from(self@, event@, priority, i as int),
            decreases self@.len() - i,
        {
            let h = &self.handlers[i];
            assert(reg_of(*h) == self@[i as int]);
            if h.priority < priority && name_matches(7, h.event_type.as_str(), event) {
                return i;
            }
            i = i + 1;
        }
        i
    }

    /// Registers `listener` for `event` at `priority`. A triple that is
    /// already there at that priority stays where it is; at another priority
    /// it is taken out and put in again. A new registration goes after every
    /// registration of the same type whose priority is at least `priority`.
    pub fn add_event_listener(&mut self, event: &str, priority: i32, listener: ObjectId, use_capture: bool)
        requires
            well_ordered(old(self)@),
        ensures
            final(self)@ == added(old(self)@, event@, listener, use_capture, priority),
            well_ordered(final(self)@),
    {
        match self.find_handler(event, listener, use_capture) {
            Some(k) => {
                if self.handlers[k].priority == priority {
                    assert(reg_of(self.handlers@[k as int]) == self@[k as int]);
                    return;
                }
                self.handlers.remove(k);
                assert(self@ =~= old(self)@.remove(k as int));
            },
            None => {},
        }
        let ghost mid = self@;
        assert(mid == removed(old(self)@, event@, listener, use_capture));
        let at = self.find_insert_point(event, priority);
        proof {
            lemma_lower_from(mid, event@, priority, 0);
        }
        let h = EventHandler { event_type: event.to_owned(), listener, use_capture, priority };
        self.handlers.insert(at, h);
        assert(self@ =~= mid.insert(at as int, reg_of(h)));
        proof {
            lemma_added_well_ordered(old(self)@, event@, listener, use_capture, priority);
        }
    }

    /// Takes the registration of the triple out; nothing happens when there
    /// is none.
    pub fn remove_event_listener(&mut self, event: &str, listener: ObjectId, use_capture: bool)
        requires
            well_ordered(old(self)@),
        ensures
            final(self)@ == removed(old(self)@, event@, listener, use_capture),
            well_ordered(final(self)@),
    {
        match self.find_handler(event, listener, use_capture) {
            Some(k) => {
                self.handlers.remove(k);
                assert(self@ =~= old(self)@.remove(k as int));
            },
            None => {},
        }
        proof {
            lemma_removed_well_ordered(old(self)@, event@, listener, use_capture);
        }
    }

    /// Whether any listener, capturing or not, is registered for `event`.
    pub fn has_event_listener(&self, event: &str) -> (r: bool)
        ensures
            r == exists|i: int| 0 <= i < self@.len() && (#[trigger] self@[i]).event_type == event@,
    {
        let mut i: usize = 0;
        while i < self.handlers.len()
            invariant
                i <= self@.len(),
                self@.len() == self.handlers@.len(),
                forall|j: int| 0 <= j < i ==> (#[trigger] self@[j]).event_type != event@,
            decreases self@.len() - i,
        {
            let h = &self.handlers[i];
            assert(reg_of(*h) == self@[i as int]);
            if name_matches(7, h.event_type.as_str(), event) {
                return true;
            }
            i = i + 1;
        }
        false
    }

    /// The listeners invoked for `event` in `phase`, in invocation order.
    pub fn listeners_for(&self, event: &str, phase: EventPhase) -> (r: Vec<ObjectId>)
        ensures
            r@ == phase_regs(self@, event@, phase).map_values(|x: Registration| x.listener),
    {
        let mut r: Vec<ObjectId> = Vec::new();
        let mut i: usize = 0;
        while i < self.handlers.len()
            invariant
                i <= self@.len(),
                self@.len() == self.handlers@.len(),
                r@ == phase_regs(self@.subrange(0, i as int), event@, phase).map_values(
                    |x: Registration| x.listener,
                ),
            decreases self@.len() - i,
        {
            let h = &self.handlers[i];
            assert(reg_of(*h) == self@[i as int]);
            assert(self@.subrange(0, i as int + 1).drop_last() =~= self@.subrange(0, i as int));
            let wanted = match phase {
                EventPhase::Capturing => h.use_capture,
                EventPhase::AtTarget => true,
                EventPhase::Bubbling => !h.use_capture,
            };
            if wanted && name_matches(7, h.event_type.as_str(), event) {
                r.push(h.listener);
                assert(r@ =~= phase_regs(self@.subrange(0, i as int + 1), event@, phase).map_values(
                    |x: Registration| x.listener,
                ));
            }
            i = i + 1;
        }
        assert(self@.subrange(0, self@.len() as int) =~= self@);
        r
    }
}

proof fn lemma_triple_from(s: Seq<Registration>, t: Seq<char>, l: ObjectId, c: bool, i: int)
    requires
        0 <= i,
    ensures
        triple_from(s, t, l, c, i) == -1 || (i <= triple_from(s, t, l, c, i) < s.len() && is_triple(
            s[triple_from(s, t, l, c, i)],
            t,
            l,
            c,
        )),
        triple_from(s, t, l, c, i) == -1 ==> forall|j: int| i <= j < s.len() ==> !is_triple(#[trigger] s[j], t, l, c),
    decreases s.len() - i,
{
    if i < s.len() {
        lemma_triple_from(s, t, l, c, i + 1);
    }
}

proof fn lemma_lower_from(s: Seq<Registration>, t: Seq<char>, p: i32, i: int)
    requires
        0 <= i <= s.len(),
    ensures
        i <= lower_from(s, t, p, i) <= s.len(),
        forall|j: int| i <= j < lower_from(s, t, p, i) ==> !((#[trigger] s[j]).event_type == t && s[j].priority < p),
        lower_from(s, t, p, i) < s.len() ==> s[lower_from(s, t, p, i)].event_type == t
            && s[lower_from(s, t, p, i)].priority < p,
    decreases s.len() - i,
{
    if i < s.len() {
        lemma_lower_from(s, t, p, i + 1);
    }
}

proof fn lemma_removed_well_ordered(s: Seq<Registration>, t: Seq<char>, l: ObjectId, c: bool)
    requires
        well_ordered(s),
    ensures
        well_ordered(removed(s, t, l, c)),
        forall|j: int|
            0 <= j < removed(s, t, l, c).len() ==> !is_triple(#[trigger] removed(s, t, l, c)[j], t, l, c),
{
    lemma_triple_from(s, t, l, c, 0);
    let k = find_triple(s, t, l, c);
    let r = removed(s, t, l, c);
    if k >= 0 {
        assert forall|j: int| 0 <= j < r.len() implies !is_triple(#[trigger] r[j], t, l, c) by {
            if j < k {
                assert(r[j] == s[j]);
                assert(!is_triple(s[k], s[j].event_type, s[j].listener, s[j].use_capture));
            } else {
                assert(r[j] == s[j + 1]);
            }
        }
        assert forall|i: int, j: int|
            0 <= i < j < r.len() && (#[trigger] r[i]).event_type == (#[trigger] r[j]).event_type implies r[i].priority
            >= r[j].priority by {
            let a = if i < k { i } else { i + 1 };
            let b = if j < k { j } else { j + 1 };
            assert(r[i] == s[a] && r[j] == s[b]);
        }
        assert forall|i: int, j: int| 0 <= i < j < r.len() implies !is_triple(
            #[trigger] r[j],
            (#[trigger] r[i]).event_type,
            r[i].listener,
            r[i].use_capture,
        ) by {
            let a = if i < k { i } else { i + 1 };
            let b = if j < k { j } else { j + 1 };
            assert(r[i] == s[a] && r[j] == s[b]);
        }
    }
}

proof fn lemma_added_well_ordered(s: Seq<Registration>, t: Seq<char>, l: ObjectId, c: bool, p: i32)
    requires
        well_ordered(s),
    ensures
        well_ordered(added(s, t, l, c, p)),
{
    let k = find_triple(s, t, l, c);
    if k >= 0 && s[k].priority == p {
    } else {
        lemma_removed_well_ordered(s, t, l, c);
        let r = removed(s, t, l, c);
        let ip = insert_point(r, t, p);
        lemma_lower_from(r, t, p, 0);
        let x = Registration { event_type: t, listener: l, use_capture: c, priority: p };
        let n = r.insert(ip, x);
        assert forall|i: int, j: int|
            0 <= i < j < n.len() && (#[trigger] n[i]).event_type == (#[trigger] n[j]).event_type implies n[i].priority
            >= n[j].priority by {
            if j < ip {
                assert(n[i] == r[i] && n[j] == r[j]);
            } else if j == ip {
                assert(n[i] == r[i]);
            } else if i < ip {
                assert(n[i] == r[i] && n[j] == r[j - 1]);
            } else if i == ip {
                assert(n[j] == r[j - 1]);
                if j - 1 > ip {
                    assert(r[ip].event_type == r[j - 1].event_type);
                }
            } else {
                assert(n[i] == r[i - 1] && n[j] == r[j - 1]);
            }
        }
        assert forall|i: int, j: int| 0 <= i < j < n.len() implies !is_triple(
            #[trigger] n[j],
            (#[trigger] n[i]).event_type,
            n[i].listener,
            n[i].use_capture,
        ) by {
            if j < ip {
                assert(n[i] == r[i] && n[j] == r[j]);
            } else if j == ip {
                assert(n[i] == r[i]);
            } else if i < ip {
                assert(n[i] == r[i] && n[j] == r[j - 1]);
            } else if i == ip {
                assert(n[j] == r[j - 1]);
            } else {
                assert(n[i] == r[i - 1] && n[j] == r[j - 1]);
            }
        }
    }
}

/// Registering a triple twice, at any priorities, and then removing it leaves
/// no registration of that triple.
pub proof fn lemma_add_add_remove_clears(
    s: Seq<Registration>,
    t: Seq<char>,
    l: ObjectId,
    c: bool,
    first_priority: i32,
    second_priority: i32,
)
    requires
        well_ordered(s),
    ensures
        ({
            let r = removed(added(added(s, t, l, c, first_priority), t, l, c, second_priority), t, l, c);
            forall|j: int| 0 <= j < r.len() ==> !is_triple(#[trigger] r[j], t, l, c)
        }),
{
    lemma_added_well_ordered(s, t, l, c, first_priority);
    lemma_added_well_ordered(added(s, t, l, c, first_priority), t, l, c, second_priority);
    lemma_removed_well_ordered(added(added(s, t, l, c, first_priority), t, l, c, second_priority), t, l, c);
}

proof fn lemma_phase_regs_members(s: Seq<Registration>, t: Seq<char>, phase: EventPhase)
    ensures
        forall|i: int|
            0 <= i < phase_regs(s, t, phase).len() ==> exists|j: int|
                0 <= j < s.len() && #[trigger] phase_regs(s, t, phase)[i] == s[j] && s[j].event_type == t,
    decreases s.len(),
{
    if s.len() > 0 {
        let d = s.drop_last();
        lemma_phase_regs_members(d, t, phase);
        let pr = phase_regs(s, t, phase);
        assert forall|i: int| 0 <= i < pr.len() implies exists|j: int|
            0 <= j < s.len() && #[trigger] pr[i] == s[j] && s[j].event_type == t by {
            if i < phase_regs(d, t, phase).len() {
                let j = choose|j: int| 0 <= j < d.len() && phase_regs(d, t, phase)[i] == d[j] && d[j].event_type == t;
                assert(pr[i] == s[j]);
            } else {
                assert(pr[i] == s[s.len() - 1]);
            }
        }
    }
}

/// In a well-ordered list, the listeners that one phase of one event type
/// invokes come in non-increasing priority.
pub proof fn lemma_phase_priorities_non_increasing(s: Seq<Registration>, t: Seq<char>, phase: EventPhase)
    requires
        well_ordered(s),
    ensures
        forall|i: int, j: int|
            0 <= i < j < phase_regs(s, t, phase).len() ==> (#[trigger] phase_regs(s, t, phase)[i]).priority
                >= (#[trigger] phase_regs(s, t, phase)[j]).priority,
    decreases s.len(),
{
    if s.len() > 0 {
        let d = s.drop_last();
        assert(well_ordered(d)) by {
            assert forall|i: int, j: int| 0 <= i < j < d.len() implies d[i] == s[i] && d[j] == s[j] by {}
        }
        lemma_phase_priorities_non_increasing(d, t, phase);
        lemma_phase_regs_members(d, t, phase);
        let pd = phase_regs(d, t, phase);
        let pr = phase_regs(s, t, phase);
        if selected(s.last(), t, phase) {
            assert forall|i: int, j: int| 0 <= i < j < pr.len() implies (#[trigger] pr[i]).priority
                >= (#[trigger] pr[j]).priority by {
                if j == pr.len() - 1 {
                    let m = choose|m: int| 0 <= m < d.len() && pd[i] == d[m] && d[m].event_type == t;
                    assert(s[m] == d[m]);
                    assert(s[m].event_type == s[s.len() - 1].event_type);
                } else {
                    assert(pr[i] == pd[i] && pr[j] == pd[j]);
                }
            }
        }
    }
}

/// A registration of a new triple goes after every registration of its type
/// whose priority is at least its own: listeners of equal priority keep the
/// order in which they were added.
pub proof fn lemma_ties_keep_insertion_order(s: Seq<Registration>, t: Seq<char>, l: ObjectId, c: bool, p: i32)
    requires
        well_ordered(s),
        find_triple(s, t, l, c) == -1,
    ensures
        ({
            let n = added(s, t, l, c, p);
            let k = insert_point(s, t, p);
            &&& 0 <= k <= s.len()
            &&& n.len() == s.len() + 1
            &&& n[k] == Registration { event_type: t, listener: l, use_capture: c, priority: p }
            &&& forall|j: int| 0 <= j < k ==> #[trigger] n[j] == s[j]
            &&& forall|j: int| k < j < n.len() ==> #[trigger] n[j] == s[j - 1] && !(s[j - 1].event_type == t
                && s[j - 1].priority >= p)
        }),
{
    lemma_lower_from(s, t, p, 0);
    let k = insert_point(s, t, p);
    let n = added(s, t, l, c, p);
    assert(removed(s, t, l, c) == s);
    assert forall|j: int| k < j < n.len() implies #[trigger] n[j] == s[j - 1] && !(s[j - 1].event_type == t
        && s[j - 1].priority >= p) by {
        if j - 1 > k && s[j - 1].event_type == t {
            assert(s[k].event_type == s[j - 1].event_type);
        }
    }
}

/// A call on a listener registry, as the proofs see it.
pub enum ListenerCall {
    Add { event_type: Seq<char>, listener: ObjectId, use_capture: bool, priority: i32 },
    Remove { event_type: Seq<char>, listener: ObjectId, use_capture: bool },
}

/// The registry after `call`, as `add_event_listener` and
/// `remove_event_listener` leave it.
pub open spec fn apply_call(s: Seq<Registration>, call: ListenerCall) -> Seq<Registration> {
    match call {
        ListenerCall::Add { event_type, listener, use_capture, priority } => added(
            s,
            event_type,
            listener,
            use_capture,
            priority,
        ),
        ListenerCall::Remove { event_type, listener, use_capture } => removed(s, event_type, listener, use_capture),
    }
}

/// Beside registry `s`, `st` gives for each registration the index of the
/// call that last inserted it; this is `st` after call number `n`.
pub open spec fn stamps_after(s: Seq<Registration>, st: Seq<int>, call: ListenerCall, n: int) -> Seq<int> {
    match call {
        ListenerCall::Add { event_type, listener, use_capture, priority } => {
            let k = find_triple(s, event_type, listener, use_capture);
            if k >= 0 && s[k].priority == priority {
                st
            } else {
                let kept = if k >= 0 {
                    st.remove(k)
                } else {
                    st
                };
                kept.insert(insert_point(removed(s, event_type, listener, use_capture), event_type, priority), n)
            }
        },
        ListenerCall::Remove { event_type, listener, use_capture } => {
            let k = find_triple(s, event_type, listener, use_capture);
            if k >= 0 {
                st.remove(k)
            } else {
                st
            }
        },
    }
}

/// The registry that `calls` build from an empty one, with the stamps.
pub open spec fn replay(calls: Seq<ListenerCall>) -> (Seq<Registration>, Seq<int>)
    decreases calls.len(),
{
    if calls.len() == 0 {
        (Seq::empty(), Seq::empty())
    } else {
        let (s, st) = replay(calls.drop_last());
        (apply_call(s, calls.last()), stamps_after(s, st, calls.last(), calls.len() - 1))
    }
}

/// Stamps lie below `bound`, and among registrations of one type and one
/// priority they rise along the list.
pub open spec fn ties_stamped(s: Seq<Registration>, st: Seq<int>, bound: int) -> bool {
    &&& st.len() == s.len()
    &&& forall|i: int| 0 <= i < st.len() ==> 0 <= #[trigger] st[i] < bound
    &&& forall|i: int, j: int|
        0 <= i < j < s.len() && (#[trigger] s[i]).event_type == (#[trigger] s[j]).event_type && s[i].priority
            == s[j].priority ==> st[i] < st[j]
}

proof fn lemma_ties_stamped_remove(s: Seq<Registration>, st: Seq<int>, bound: int, k: int)
    requires
        ties_stamped(s, st, bound),
        0 <= k < s.len(),
    ensures
        ties_stamped(s.remove(k), st.remove(k), bound),
{
    let r = s.remove(k);
    let q = st.remove(k);
    assert forall|i: int| 0 <= i < q.len() implies 0 <= #[trigger] q[i] < bound by {
        if i < k {
            assert(q[i] == st[i]);
        } else {
            assert(q[i] == st[i + 1]);
        }
    }
    assert forall|i: int, j: int|
        0 <= i < j < r.len() && (#[trigger] r[i]).event_type == (#[trigger] r[j]).event_type && r[i].priority
            == r[j].priority implies q[i] < q[j] by {
        let a = if i < k { i } else { i + 1 };
        let b = if j < k { j } else { j + 1 };
        assert(r[i] == s[a] && r[j] == s[b] && q[i] == st[a] && q[j] == st[b]);
    }
}

proof fn lemma_ties_stamped_insert(r: Seq<Registration>, kept: Seq<int>, t: Seq<char>, l: ObjectId, c: bool, p: i32, n: int)
    requires
        0 <= n,
        well_ordered(r),
        ties_stamped(r, kept, n),
    ensures
        ties_stamped(
            r.insert(insert_point(r, t, p), Registration { event_type: t, listener: l, use_capture: c, priority: p }),
            kept.insert(insert_point(r, t, p), n),
            n + 1,
        ),
{
    lemma_lower_from(r, t, p, 0);
    let ip = insert_point(r, t, p);
    let x = Registration { event_type: t, listener: l, use_capture: c, priority: p };
    let ns = r.insert(ip, x);
    let nst = kept.insert(ip, n);
    assert forall|i: int| 0 <= i < nst.len() implies 0 <= #[trigger] nst[i] < n + 1 by {
        if i < ip {
            assert(nst[i] == kept[i]);
        } else if i > ip {
            assert(nst[i] == kept[i - 1]);
        } else {
            assert(nst[i] == n);
        }
    }
    assert forall|i: int, j: int|
        0 <= i < j < ns.len() && (#[trigger] ns[i]).event_type == (#[trigger] ns[j]).event_type && ns[i].priority
            == ns[j].priority implies nst[i] < nst[j] by {
        if j < ip {
            assert(ns[i] == r[i] && ns[j] == r[j] && nst[i] == kept[i] && nst[j] == kept[j]);
        } else if j == ip {
            assert(nst[i] == kept[i]);
        } else if i < ip {
            assert(ns[i] == r[i] && ns[j] == r[j - 1] && nst[i] == kept[i] && nst[j] == kept[j - 1]);
        } else if i == ip {
            assert(ns[j] == r[j - 1]);
            if j - 1 > ip {
                assert(r[ip].event_type == r[j - 1].event_type);
            }
        } else {
            assert(ns[i] == r[i - 1] && ns[j] == r[j - 1] && nst[i] == kept[i - 1] && nst[j] == kept[j - 1]);
        }
    }
}

proof fn lemma_ties_stamped_weaken(s: Seq<Registration>, st: Seq<int>, n: int)
    requires
        ties_stamped(s, st, n),
    ensures
        ties_stamped(s, st, n + 1),
{
}

proof fn lemma_replay(calls: Seq<ListenerCall>)
    ensures
        well_ordered(replay(calls).0),
        ties_stamped(replay(calls).0, replay(calls).1, calls.len() as int),
    decreases calls.len(),
{
    if calls.len() > 0 {
        let prev = calls.drop_last();
        lemma_replay(prev);
        let (s, st) = replay(prev);
        let n = calls.len() - 1;
        match calls.last() {
            ListenerCall::Add { event_type: t, listener: l, use_capture: c, priority: p } => {
                lemma_added_well_ordered(s, t, l, c, p);
                lemma_triple_from(s, t, l, c, 0);
                let k = find_triple(s, t, l, c);
                if k >= 0 && s[k].priority == p {
                    lemma_ties_stamped_weaken(s, st, n);
                } else {
                    lemma_removed_well_ordered(s, t, l, c);
                    if k >= 0 {
                        lemma_ties_stamped_remove(s, st, n, k);
                        lemma_ties_stamped_insert(s.remove(k), st.remove(k), t, l, c, p, n);
                    } else {
                        lemma_ties_stamped_insert(s, st, t, l, c, p, n);
                    }
                }
            },
            ListenerCall::Remove { event_type: t, listener: l, use_capture: c } => {
                lemma_removed_well_ordered(s, t, l, c);
                lemma_triple_from(s, t, l, c, 0);
                let k = find_triple(s, t, l, c);
                if k >= 0 {
                    lemma_ties_stamped_remove(s, st, n, k);
                    lemma_ties_stamped_weaken(s.remove(k), st.remove(k), n);
                } else {
                    lemma_ties_stamped_weaken(s, st, n);
                }
            },
        }
    }
}

/// Whatever calls built a registry from an empty one, its registrations of
/// one event type come in non-increasing priority, and those of equal
/// priority come in the order in which they were last inserted: the stamp of
/// each, the index of the call that last put it in, rises along the list.
pub proof fn lemma_registry_history_order(calls: Seq<ListenerCall>)
    ensures
        ({
            let (s, st) = replay(calls);
            &&& well_ordered(s)
            &&& st.len() == s.len()
            &&& forall|i: int| 0 <= i < st.len() ==> 0 <= #[trigger] st[i] < calls.len()
            &&& forall|i: int, j: int|
                0 <= i < j < s.len() && (#[trigger] s[i]).event_type == (#[trigger] s[j]).event_type
                    && s[i].priority == s[j].priority ==> st[i] < st[j]
        }),
{
    lemma_replay(calls);
}

} // verus!
