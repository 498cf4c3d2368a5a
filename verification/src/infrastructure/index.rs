//! The concurrent hash map of the `dashmap` crate, as an index from keys to positions.
use dashmap::DashMap;
use vstd::prelude::*;

verus! {

/// The hash map of the `dashmap` crate, as an opaque value.
#[verifier::external_type_specification]
#[verifier::external_body]
#[verifier::reject_recursive_types(K)]
#[verifier::reject_recursive_types(V)]
#[verifier::reject_recursive_types(S)]
pub struct ExDashMap<K, V, S>(dashmap::DashMap<K, V, S>);

/// What an index holds: for each key the position it leads to.
pub uninterp spec fn slots(index: DashMap<String, usize>) -> Map<Seq<char>, usize>;

/// What an empty index holds.
pub open spec fn no_slots() -> Map<Seq<char>, usize> {
    Map::empty()
}

/// `DashMap::new` makes an empty map.
#[verifier::external_body]
pub(crate) fn new_index() -> (index: DashMap<String, usize>)
    ensures
        slots(index) == no_slots(),
{
    DashMap::new()
}

/// `DashMap::insert` sets the value of a key, in place of an earlier one, which it returns.
#[verifier::external_body]
pub(crate) fn insert(index: &mut DashMap<String, usize>, key: String, position: usize) -> (previous:
    Option<usize>)
    ensures
        slots(*final(index)) == slots(*old(index)).insert(key@, position),
        previous == if slots(*old(index)).contains_key(key@) {
            Some(slots(*old(index))[key@])
        } else {
            None
        },
{
    index.insert(key, position)
}

/// `DashMap::get` finds the value of a key.
#[verifier::external_body]
pub(crate) fn get(index: &DashMap<String, usize>, key: &str) -> (position: Option<usize>)
    ensures
        position == if slots(*index).contains_key(key@) {
            Some(slots(*index)[key@])
        } else {
            None
        },
{
    index.get(key).map(|entry| *entry.value())
}

/// `DashMap::remove` takes a key out, and returns the value it had.
#[verifier::external_body]
pub(crate) fn remove(index: &mut DashMap<String, usize>, key: &str) -> (position: Option<usize>)
    ensures
        slots(*final(index)) == slots(*old(index)).remove(key@),
        position == if slots(*old(index)).contains_key(key@) {
            Some(slots(*old(index))[key@])
        } else {
            None
        },
{
    index.remove(key).map(|entry| entry.1)
}

/// `DashMap::len` counts the keys.
#[verifier::external_body]
pub(crate) fn len(index: &DashMap<String, usize>) -> (n: usize)
    ensures
        slots(*index).dom().finite() ==> n == slots(*index).dom().len(),
{
    index.len()
}

/// `DashMap::is_empty` tells whether there is no key.
#[verifier::external_body]
pub(crate) fn is_empty(index: &DashMap<String, usize>) -> (r: bool)
    ensures
        r == (slots(*index) == no_slots()),
{
    index.is_empty()
}

/// `DashMap::clear` takes everything out.
#[verifier::external_body]
pub(crate) fn clear(index: &mut DashMap<String, usize>)
    ensures
        slots(*final(index)) == no_slots(),
{
    index.clear()
}

/// `DashMap::iter` goes over all entries, each once, in an order that is not specified. Here it
/// goes on until `limit` keys have come.
#[verifier::external_body]
pub(crate) fn first_keys(index: &DashMap<String, usize>, limit: usize) -> (keys: Vec<String>)
    ensures
        slots(*index).dom().finite() ==> keys@.len() == if slots(*index).dom().len() <= limit {
            slots(*index).dom().len()
        } else {
            limit as nat
        },
        forall|i: int| 0 <= i < keys@.len() ==> slots(*index).contains_key(#[trigger] keys@[i]@),
        forall|i: int, j: int|
            0 <= i < j < keys@.len() ==> #[trigger] keys@[i]@ != #[trigger] keys@[j]@,
{
    index.iter().take(limit).map(|entry| entry.key().clone()).collect()
}

} // verus!
