//! Views of collections whose elements have views of their own.

use vstd::prelude::*;

verus! {

/// What an optional value stands for.
pub open spec fn opt_view<T: View>(o: Option<T>) -> Option<T::V> {
    match o {
        Some(x) => Some(x@),
        None => None,
    }
}

/// What the elements of a list stand for.
pub open spec fn seq_view<T: View>(s: Seq<T>) -> Seq<T::V> {
    Seq::new(s.len(), |i: int| s[i]@)
}

/// What the values of a map stand for.
pub open spec fn map_view<K, T: View>(m: Map<K, T>) -> Map<K, T::V> {
    Map::new(|k: K| m.dom().contains(k), |k: K| m[k]@)
}

/// Appending to a list appends to what it stands for.
pub broadcast proof fn lemma_seq_view_push<T: View>(s: Seq<T>, x: T)
    ensures
        #[trigger] seq_view(s.push(x)) == seq_view(s).push(x@),
{
    assert(seq_view(s.push(x)) =~= seq_view(s).push(x@));
}

/// Changing a place of a list changes that place of what it stands for.
pub broadcast proof fn lemma_seq_view_update<T: View>(s: Seq<T>, i: int, x: T)
    requires
        0 <= i < s.len(),
    ensures
        #[trigger] seq_view(s.update(i, x)) == seq_view(s).update(i, x@),
{
    assert(seq_view(s.update(i, x)) =~= seq_view(s).update(i, x@));
}

/// Setting a key of a map sets that key of what it stands for.
pub broadcast proof fn lemma_map_view_insert<K, T: View>(m: Map<K, T>, k: K, x: T)
    ensures
        #[trigger] map_view(m.insert(k, x)) == map_view(m).insert(k, x@),
{
    assert(map_view(m.insert(k, x)) =~= map_view(m).insert(k, x@));
}

/// Taking a key out of a map takes it out of what the map stands for.
pub broadcast proof fn lemma_map_view_remove<K, T: View>(m: Map<K, T>, k: K)
    ensures
        #[trigger] map_view(m.remove(k)) == map_view(m).remove(k),
{
    assert(map_view(m.remove(k)) =~= map_view(m).remove(k));
}

/// An empty map stands for an empty map.
pub broadcast proof fn lemma_map_view_empty<K, T: View>()
    ensures
        #[trigger] map_view(Map::<K, T>::empty()) == Map::<K, T::V>::empty(),
{
    assert(map_view(Map::<K, T>::empty()) =~= Map::<K, T::V>::empty());
}

/// An empty list stands for an empty list.
pub broadcast proof fn lemma_seq_view_empty<T: View>()
    ensures
        #[trigger] seq_view(Seq::<T>::empty()) == Seq::<T::V>::empty(),
{
    assert(seq_view(Seq::<T>::empty()) =~= Seq::<T::V>::empty());
}

pub broadcast group group_views {
    lemma_seq_view_push,
    lemma_seq_view_update,
    lemma_map_view_insert,
    lemma_map_view_remove,
    lemma_map_view_empty,
    lemma_seq_view_empty,
}

} // verus!
