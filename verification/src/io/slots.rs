//! A table of numbers in `slab` slots.

use slab::Slab;
use vstd::prelude::*;

verus! {

/// A table whose slots are reused.
#[verifier::external_type_specification]
#[verifier::external_body]
#[verifier::reject_recursive_types(T)]
pub struct ExSlab<T>(slab::Slab<T>);

/// The occupied slots of a table and what they hold.
pub uninterp spec fn occupied(table: Slab<u64>) -> Map<usize, u64>;

/// No slot at all.
pub open spec fn no_slots() -> Map<usize, u64> {
    Map::empty()
}

/// The largest capacity that a table is made with.
pub const MAX_CAPACITY: usize = 65536;

/// Trusted: `Slab::with_capacity` gives a table in which no slot is occupied. It
/// panics on a capacity that no memory can hold, which is left out here.
#[verifier::external_body]
pub(crate) fn slab_with_capacity(capacity: usize) -> (table: Slab<u64>)
    requires
        capacity <= MAX_CAPACITY,
    ensures
        occupied(table) == no_slots(),
{
    Slab::with_capacity(capacity)
}

/// Trusted: `Slab::insert` puts the value in a slot that was vacant, leaves the other
/// slots alone and returns the slot.
#[verifier::external_body]
pub(crate) fn slab_insert(table: &mut Slab<u64>, value: u64) -> (key: usize)
    ensures
        !occupied(*old(table)).contains_key(key),
        occupied(*final(table)) == occupied(*old(table)).insert(key, value),
{
    table.insert(value)
}

/// Trusted: `Slab::get` gives what the slot holds, if it is occupied.
#[verifier::external_body]
pub(crate) fn slab_get(table: &Slab<u64>, key: usize) -> (value: Option<u64>)
    ensures
        value == (if occupied(*table).contains_key(key) {
            Some(occupied(*table)[key])
        } else {
            None
        }),
{
    table.get(key).copied()
}

/// Trusted: `Slab::remove` vacates an occupied slot, leaves the other slots alone and
/// returns what the slot held. It panics on a vacant slot, which is left out here.
#[verifier::external_body]
pub(crate) fn slab_remove(table: &mut Slab<u64>, key: usize) -> (value: u64)
    requires
        occupied(*old(table)).contains_key(key),
    ensures
        value == occupied(*old(table))[key],
        occupied(*final(table)) == occupied(*old(table)).remove(key),
{
    table.remove(key)
}

/// Whether a list holds the slots of a table and their values, by ascending slot.
pub open spec fn lists_slots(items: Seq<(usize, u64)>, slots: Map<usize, u64>) -> bool {
    &&& forall|i: int| 0 <= i < items.len() ==> slots.contains_key((#[trigger] items[i]).0)
        && slots[items[i].0] == items[i].1
    &&& forall|key: usize| #[trigger]
        slots.contains_key(key) ==> exists|i: int| 0 <= i < items.len() && (#[trigger] items[i]).0
            == key
    &&& forall|i: int, j: int|
        0 <= i < j < items.len() ==> (#[trigger] items[i]).0 < (#[trigger] items[j]).0
}

/// Trusted: `Slab::iter` visits each occupied slot once, by ascending slot.
#[verifier::external_body]
pub(crate) fn slab_items(table: &Slab<u64>) -> (items: Vec<(usize, u64)>)
    ensures
        lists_slots(items@, occupied(*table)),
{
    table.iter().map(|(key, value)| (key, *value)).collect()
}

} // verus!
