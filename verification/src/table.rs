use vstd::prelude::*;
use crate::identity::Identity;

verus! {

/// The keys of an identity-keyed association list are pairwise distinct.
pub open spec fn distinct_keys<V>(s: Seq<(Identity, V)>) -> bool {
    forall|i: int, j: int| 0 <= i < j < s.len() ==> s[i].0@ != s[j].0@
}

/// The mathematical map an identity-keyed association list denotes.
pub open spec fn table_map<V>(s: Seq<(Identity, V)>) -> Map<Seq<u8>, V>
    decreases s.len(),
{
    if s.len() == 0 {
        Map::empty()
    } else {
        table_map(s.drop_last()).insert(s.last().0@, s.last().1)
    }
}

/// A key is in the map exactly when some entry of the list carries it.
pub proof fn lemma_table_map_dom<V>(s: Seq<(Identity, V)>, k: Seq<u8>)
    ensures
        table_map(s).contains_key(k) <==> exists|i: int| 0 <= i < s.len() && s[i].0@ == k,
    decreases s.len(),
{
    if s.len() > 0 {
        lemma_table_map_dom(s.drop_last(), k);
        if s.last().0@ != k && table_map(s).contains_key(k) {
            let i = choose|i: int| 0 <= i < s.drop_last().len() && s.drop_last()[i].0@ == k;
            assert(s[i].0@ == k);
        }
        if exists|i: int| 0 <= i < s.len() && s[i].0@ == k {
            let i = choose|i: int| 0 <= i < s.len() && s[i].0@ == k;
            if i < s.len() - 1 {
                assert(s.drop_last()[i].0@ == k);
            }
        }
    }
}

/// With distinct keys, the entry at an index gives that key's map value.
pub proof fn lemma_table_map_index<V>(s: Seq<(Identity, V)>, i: int)
    requires
        distinct_keys(s),
        0 <= i < s.len(),
    ensures
        table_map(s).contains_key(s[i].0@),
        table_map(s)[s[i].0@] == s[i].1,
    decreases s.len(),
{
    if i == s.len() - 1 {
    } else {
        lemma_table_map_index(s.drop_last(), i);
        assert(s.drop_last()[i] == s[i]);
        assert(s[i].0@ != s.last().0@);
    }
}

/// Appending a fresh entry inserts it into the map.
pub proof fn lemma_table_map_push<V>(s: Seq<(Identity, V)>, id: Identity, v: V)
    ensures
        table_map(s.push((id, v))) == table_map(s).insert(id@, v),
{
    assert(s.push((id, v)).drop_last() =~= s);
}

/// With distinct keys, replacing the value at an index updates that key in
/// the map and keeps every other key as it was.
pub proof fn lemma_table_map_update<V>(s: Seq<(Identity, V)>, i: int, id: Identity, v: V)
    requires
        distinct_keys(s),
        0 <= i < s.len(),
        id@ == s[i].0@,
    ensures
        table_map(s.update(i, (id, v))) == table_map(s).insert(id@, v),
    decreases s.len(),
{
    let t = s.update(i, (id, v));
    if i == s.len() - 1 {
        assert(t.drop_last() =~= s.drop_last());
        assert(table_map(t) == table_map(s.drop_last()).insert(id@, v));
        lemma_table_map_dom(s.drop_last(), id@);
        assert(table_map(s) == table_map(s.drop_last()).insert(s[i].0@, s[i].1));
        assert(table_map(s.drop_last()).insert(id@, v) =~= table_map(s).insert(id@, v));
    } else {
        assert(t.drop_last() =~= s.drop_last().update(i, (id, v)));
        lemma_table_map_update(s.drop_last(), i, id, v);
        assert(s.drop_last()[i] == s[i]);
        assert(t.last() == s.last());
        assert(table_map(t) == table_map(s.drop_last()).insert(id@, v).insert(s.last().0@, s.last().1));
        assert(s.last().0@ != id@);
        assert(table_map(s.drop_last()).insert(id@, v).insert(s.last().0@, s.last().1)
            =~= table_map(s.drop_last()).insert(s.last().0@, s.last().1).insert(id@, v));
    }
}

/// The set of identities an identity list denotes.
pub open spec fn id_set(s: Seq<Identity>) -> Set<Seq<u8>>
    decreases s.len(),
{
    if s.len() == 0 {
        Set::empty()
    } else {
        id_set(s.drop_last()).insert(s.last()@)
    }
}

/// The identities of a list are pairwise distinct.
pub open spec fn distinct_ids(s: Seq<Identity>) -> bool {
    forall|i: int, j: int| 0 <= i < j < s.len() ==> s[i]@ != s[j]@
}

/// An identity is in the set exactly when some entry of the list carries it.
pub proof fn lemma_id_set_contains(s: Seq<Identity>, k: Seq<u8>)
    ensures
        id_set(s).contains(k) <==> exists|i: int| 0 <= i < s.len() && s[i]@ == k,
    decreases s.len(),
{
    if s.len() > 0 {
        lemma_id_set_contains(s.drop_last(), k);
        if s.last()@ != k && id_set(s).contains(k) {
            let i = choose|i: int| 0 <= i < s.drop_last().len() && s.drop_last()[i]@ == k;
            assert(s[i]@ == k);
        }
        if exists|i: int| 0 <= i < s.len() && s[i]@ == k {
            let i = choose|i: int| 0 <= i < s.len() && s[i]@ == k;
            if i < s.len() - 1 {
                assert(s.drop_last()[i]@ == k);
            }
        }
    }
}

/// The set a list denotes is finite, and with distinct identities its
/// cardinality is the list's length.
pub proof fn lemma_id_set_len(s: Seq<Identity>)
    requires
        distinct_ids(s),
    ensures
        id_set(s).finite(),
        id_set(s).len() == s.len(),
    decreases s.len(),
{
    if s.len() > 0 {
        lemma_id_set_len(s.drop_last());
        lemma_id_set_contains(s.drop_last(), s.last()@);
    }
}

/// Two lists whose entries denote the same identities denote the same set.
pub proof fn lemma_id_set_pointwise(s: Seq<Identity>, t: Seq<Identity>)
    requires
        s.len() == t.len(),
        forall|j: int| 0 <= j < s.len() ==> s[j]@ == t[j]@,
    ensures
        id_set(s) == id_set(t),
    decreases s.len(),
{
    if s.len() > 0 {
        lemma_id_set_pointwise(s.drop_last(), t.drop_last());
    }
}

/// Appending an identity inserts it into the set.
pub proof fn lemma_id_set_push(s: Seq<Identity>, id: Identity)
    ensures
        id_set(s.push(id)) == id_set(s).insert(id@),
{
    assert(s.push(id).drop_last() =~= s);
}

} // verus!
