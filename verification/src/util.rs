//! Small shared helpers: string-slice equality, and lemmas relating the
//! views of the registry containers to the model maps and sequences.

use vstd::prelude::*;

verus! {

/// Relies on std's `<str as PartialEq>::eq`: string slices compare equal
/// exactly when their character sequences do.
#[verifier::external_body]
pub fn str_eq(a: &str, b: &str) -> (r: bool)
    ensures
        r == (a@ == b@),
{
    a == b
}

/// A vector's deep view is its view, element by element.
pub broadcast proof fn lemma_vec_deep_view<T: DeepView>(v: &Vec<T>)
    ensures
        (#[trigger] v.deep_view()).len() == v@.len(),
        forall|i: int| 0 <= i < v@.len() ==> v.deep_view()[i] == v@[i].deep_view(),
{
    assert(v.deep_view() == Seq::new(v@.len(), |j: int| v@[j].deep_view()));
    assert forall|i: int| 0 <= i < v@.len() implies v.deep_view()[i] == v@[i].deep_view() by {
        assert(Seq::new(v@.len(), |j: int| v@[j].deep_view())[i] == v@[i].deep_view());
    }
}

/// Mapping the values of a map commutes with inserting one entry.
pub proof fn lemma_map_values_insert<K, V, W>(m: Map<K, V>, f: spec_fn(V) -> W, k: K, v: V)
    ensures
        m.insert(k, v).map_values(f) == m.map_values(f).insert(k, f(v)),
{
    assert(m.insert(k, v).map_values(f) =~= m.map_values(f).insert(k, f(v)));
}

/// Mapping the values of a map commutes with removing one key.
pub proof fn lemma_map_values_remove<K, V, W>(m: Map<K, V>, f: spec_fn(V) -> W, k: K)
    ensures
        m.remove(k).map_values(f) == m.map_values(f).remove(k),
{
    assert(m.remove(k).map_values(f) =~= m.map_values(f).remove(k));
}

/// Mapping the values of the empty map gives the empty map.
pub proof fn lemma_map_values_empty<K, V, W>(f: spec_fn(V) -> W)
    ensures
        Map::<K, V>::empty().map_values(f) == Map::<K, W>::empty(),
{
    assert(Map::<K, V>::empty().map_values(f) =~= Map::<K, W>::empty());
}

} // verus!
