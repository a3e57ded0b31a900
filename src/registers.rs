//! Register files: small fixed-size arrays of values.

use crate::value::Value;
use smallvec::SmallVec;
use vstd::prelude::*;

verus! {

/// Storage of a register file: a `SmallVec` that keeps up to eight values
/// inline. Its contents are known to the proofs through `slots_of` alone.
#[verifier::external_body]
pub struct Slots {
    items: SmallVec<[Value; 8]>,
}

/// The values that a register array holds, in index order.
pub uninterp spec fn slots_of(v: Slots) -> Seq<Value>;

/// Relies on `SmallVec::from_elem`: `n` clones of `elem`.
#[verifier::external_body]
fn slots_from_elem(elem: Value, n: usize) -> (r: Slots)
    ensures
        slots_of(r) == Seq::new(n as nat, |_i: int| elem),
{
    Slots { items: SmallVec::from_elem(elem, n) }
}

/// Relies on `SmallVec::len`: the number of elements stored.
#[verifier::external_body]
fn slots_len(v: &Slots) -> (r: usize)
    ensures
        r == slots_of(*v).len(),
{
    v.items.len()
}

/// Relies on `SmallVec`'s `Index` (through its slice): the element at `i`.
#[verifier::external_body]
fn slots_index(v: &Slots, i: usize) -> (r: &Value)
    requires
        i < slots_of(*v).len(),
    ensures
        *r == slots_of(*v)[i as int],
{
    &v.items[i]
}

/// Relies on `SmallVec`'s `IndexMut` (through its slice): overwrites the
/// element at `i`.
#[verifier::external_body]
fn slots_store(v: &mut Slots, i: usize, x: Value)
    requires
        i < slots_of(*old(v)).len(),
    ensures
        slots_of(*final(v)) == slots_of(*old(v)).update(i as int, x),
{
    v.items[i] = x;
}

/// A register file. Register `i` of a file of `n` registers exists when
/// `i < n`; reads of any other register find nothing and writes to it change
/// nothing.
pub struct RegisterSet(Slots);

impl View for RegisterSet {
    type V = Seq<Value>;

    closed spec fn view(&self) -> Seq<Value> {
        slots_of(self.0)
    }
}

impl RegisterSet {
    /// A register file of `num` registers, all `Undefined`.
    pub fn new(num: u8) -> (r: RegisterSet)
        ensures
            r@ == Seq::new(num as nat, |_i: int| Value::Undefined),
    {
        RegisterSet(slots_from_elem(Value::Undefined, num as usize))
    }

    /// The number of registers.
    pub fn len(&self) -> (r: usize)
        ensures
            r == self@.len(),
    {
        slots_len(&self.0)
    }

    /// The register `num`, if it exists.
    pub fn get(&self, num: u8) -> (r: Option<&Value>)
        ensures
            (num as int) < self@.len() ==> r == Some(&self@[num as int]),
            (num as int) >= self@.len() ==> r.is_none(),
    {
        if (num as usize) < slots_len(&self.0) {
            Some(slots_index(&self.0, num as usize))
        } else {
            None
        }
    }

    /// Stores `value` in register `num` if it exists; returns whether it did.
    pub fn set(&mut self, num: u8, value: Value) -> (r: bool)
        ensures
            r == ((num as int) < old(self)@.len()),
            r ==> final(self)@ == old(self)@.update(num as int, value),
            !r ==> final(self)@ == old(self)@,
    {
        if (num as usize) < slots_len(&self.0) {
            slots_store(&mut self.0, num as usize, value);
            true
        } else {
            false
        }
    }
}

} // verus!
