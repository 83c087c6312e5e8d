use vstd::prelude::*;

verus! {

/// The map an association list stands for: entries are applied in order,
/// so a later entry for a key overrides an earlier one.
pub open spec fn assoc_map<K, V>(s: Seq<(K, V)>) -> Map<K, V>
    decreases s.len(),
{
    if s.len() == 0 {
        Map::empty()
    } else {
        assoc_map(s.drop_last()).insert(s.last().0, s.last().1)
    }
}

/// Index `i` holds the last entry for its key.
pub open spec fn is_last_for_key<K, V>(s: Seq<(K, V)>, i: int) -> bool {
    &&& 0 <= i < s.len()
    &&& forall|j: int| i < j < s.len() ==> #[trigger] s[j].0 != s[i].0
}

/// A key with no entry is not in the map.
pub proof fn lemma_assoc_absent<K, V>(s: Seq<(K, V)>, k: K)
    requires
        forall|i: int| 0 <= i < s.len() ==> #[trigger] s[i].0 != k,
    ensures
        !assoc_map(s).dom().contains(k),
    decreases s.len(),
{
    if s.len() > 0 {
        assert forall|i: int| 0 <= i < s.drop_last().len() implies #[trigger] s.drop_last()[i].0 != k by {
            assert(s.drop_last()[i] == s[i]);
        }
        lemma_assoc_absent(s.drop_last(), k);
        assert(s.last() == s[s.len() - 1]);
    }
}

/// The last entry for a key gives its value in the map.
pub proof fn lemma_assoc_last<K, V>(s: Seq<(K, V)>, i: int)
    requires
        is_last_for_key(s, i),
    ensures
        assoc_map(s).dom().contains(s[i].0),
        assoc_map(s)[s[i].0] == s[i].1,
    decreases s.len(),
{
    if i < s.len() - 1 {
        let t = s.drop_last();
        assert forall|j: int| i < j < t.len() implies #[trigger] t[j].0 != t[i].0 by {
            assert(t[j] == s[j]);
        }
        lemma_assoc_last(t, i);
        assert(s.last() == s[s.len() - 1]);
    }
}

/// Overwriting the value of the last entry for a key inserts into the map.
pub proof fn lemma_assoc_update_last<K, V>(s: Seq<(K, V)>, i: int, v: V)
    requires
        is_last_for_key(s, i),
    ensures
        assoc_map(s.update(i, (s[i].0, v))) == assoc_map(s).insert(s[i].0, v),
    decreases s.len(),
{
    let u = s.update(i, (s[i].0, v));
    if i == s.len() - 1 {
        assert(u.drop_last() =~= s.drop_last());
        assert(assoc_map(u) =~= assoc_map(s).insert(s[i].0, v));
    } else {
        let t = s.drop_last();
        assert forall|j: int| i < j < t.len() implies #[trigger] t[j].0 != t[i].0 by {
            assert(t[j] == s[j]);
        }
        lemma_assoc_update_last(t, i, v);
        assert(u.drop_last() =~= t.update(i, (t[i].0, v)));
        assert(s.last() == s[s.len() - 1]);
        assert(u.last() == s.last());
        assert(assoc_map(u) =~= assoc_map(s).insert(s[i].0, v));
    }
}

} // verus!
