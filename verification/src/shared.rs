//! Values that several registries share.
use std::sync::Arc;

use vstd::prelude::*;

verus! {

/// `Arc::clone` makes another pointer to the same value.
#[verifier::external_body]
pub(crate) fn share<V>(value: &Arc<V>) -> (shared: Arc<V>)
    ensures
        shared == *value,
{
    Arc::clone(value)
}

/// A map of shared values, as a map of what they are.
pub open spec fn pointees<V>(map: Map<Seq<char>, Arc<V>>) -> Map<Seq<char>, V> {
    map.map_values(|value: Arc<V>| *value)
}

/// What is there of an empty map.
pub broadcast proof fn pointees_of_nothing<V>()
    ensures
        #[trigger] pointees(Map::<Seq<char>, Arc<V>>::empty()) == Map::<Seq<char>, V>::empty(),
{
    assert(pointees(Map::<Seq<char>, Arc<V>>::empty()) =~= Map::<Seq<char>, V>::empty());
}

/// What is there after an insertion.
pub broadcast proof fn pointees_after_insertion<V>(
    map: Map<Seq<char>, Arc<V>>,
    name: Seq<char>,
    value: Arc<V>,
)
    ensures
        #[trigger] pointees(map.insert(name, value)) == pointees(map).insert(name, *value),
{
    assert(pointees(map.insert(name, value)) =~= pointees(map).insert(name, *value));
}

/// What is there after a removal.
pub broadcast proof fn pointees_after_removal<V>(map: Map<Seq<char>, Arc<V>>, name: Seq<char>)
    ensures
        #[trigger] pointees(map.remove(name)) == pointees(map).remove(name),
{
    assert(pointees(map.remove(name)) =~= pointees(map).remove(name));
}

pub broadcast group group_pointees {
    pointees_of_nothing,
    pointees_after_insertion,
    pointees_after_removal,
}

} // verus!
