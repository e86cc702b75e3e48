use vstd::prelude::*;

verus! {

/// The mapping that a sequence of `(key, value)` pairs represents; a later
/// pair overrides an earlier one with the same key.
pub open spec fn kv_map<V>(s: Seq<(Seq<char>, V)>) -> Map<Seq<char>, V>
    decreases s.len(),
{
    if s.len() == 0 {
        Map::empty()
    } else {
        kv_map(s.drop_last()).insert(s.last().0, s.last().1)
    }
}

/// No two pairs of the sequence carry the same key.
pub open spec fn kv_unique<V>(s: Seq<(Seq<char>, V)>) -> bool {
    forall|i: int, j: int| #![trigger s[i], s[j]] 0 <= i < j < s.len() ==> s[i].0 != s[j].0
}

/// A key is in the mapping exactly when some pair of the sequence carries it.
pub proof fn lemma_kv_map_contains<V>(s: Seq<(Seq<char>, V)>, key: Seq<char>)
    ensures
        kv_map(s).contains_key(key) <==> exists|i: int| 0 <= i < s.len() && s[i].0 == key,
    decreases s.len(),
{
    if s.len() > 0 {
        lemma_kv_map_contains(s.drop_last(), key);
        if s.last().0 == key {
            assert(s[s.len() - 1].0 == key);
        } else {
            if kv_map(s).contains_key(key) {
                let i = choose|i: int|
                    0 <= i < s.drop_last().len() && s.drop_last()[i].0 == key;
                assert(s[i].0 == key);
            }
            if exists|i: int| 0 <= i < s.len() && s[i].0 == key {
                let i = choose|i: int| 0 <= i < s.len() && s[i].0 == key;
                assert(s.drop_last()[i].0 == key);
            }
        }
    }
}

/// Under unique keys, the pair at any position gives the mapping's value at
/// its key.
pub proof fn lemma_kv_map_value<V>(s: Seq<(Seq<char>, V)>, i: int)
    requires
        kv_unique(s),
        0 <= i < s.len(),
    ensures
        kv_map(s).contains_key(s[i].0),
        kv_map(s)[s[i].0] == s[i].1,
    decreases s.len(),
{
    if i < s.len() - 1 {
        lemma_kv_unique_drop_last(s);
        lemma_kv_map_value(s.drop_last(), i);
        assert(s.drop_last()[i] == s[i]);
    }
}

/// Dropping the last pair keeps the keys unique.
pub proof fn lemma_kv_unique_drop_last<V>(s: Seq<(Seq<char>, V)>)
    requires
        kv_unique(s),
        s.len() > 0,
    ensures
        kv_unique(s.drop_last()),
{
    assert forall|a: int, b: int| #![trigger s.drop_last()[a], s.drop_last()[b]]
        0 <= a < b < s.drop_last().len() implies s.drop_last()[a].0 != s.drop_last()[b].0 by {
        assert(s.drop_last()[a] == s[a]);
        assert(s.drop_last()[b] == s[b]);
    }
}

/// Appending a pair updates the mapping at its key and, when the key is
/// fresh, keeps the keys unique.
pub proof fn lemma_kv_map_push<V>(s: Seq<(Seq<char>, V)>, p: (Seq<char>, V))
    requires
        kv_unique(s),
        forall|j: int| 0 <= j < s.len() ==> (#[trigger] s[j]).0 != p.0,
    ensures
        kv_map(s.push(p)) == kv_map(s).insert(p.0, p.1),
        kv_unique(s.push(p)),
{
    assert(s.push(p).drop_last() =~= s);
    assert(s.push(p).last() == p);
    assert forall|a: int, b: int| #![trigger s.push(p)[a], s.push(p)[b]]
        0 <= a < b < s.push(p).len() implies s.push(p)[a].0 != s.push(p)[b].0 by {
        if b < s.len() {
            assert(s.push(p)[a] == s[a]);
            assert(s.push(p)[b] == s[b]);
        } else {
            assert(s.push(p)[a] == s[a]);
            assert(s.push(p)[b] == p);
        }
    }
}

/// Removing the pair at a position removes its key from the mapping and
/// keeps the keys unique.
pub proof fn lemma_kv_map_remove<V>(s: Seq<(Seq<char>, V)>, i: int)
    requires
        kv_unique(s),
        0 <= i < s.len(),
    ensures
        kv_map(s.remove(i)) == kv_map(s).remove(s[i].0),
        kv_unique(s.remove(i)),
    decreases s.len(),
{
    lemma_kv_unique_remove(s, i);
    if i == s.len() - 1 {
        assert(s.remove(i) =~= s.drop_last());
        lemma_kv_map_contains(s.drop_last(), s[i].0);
        assert forall|j: int| 0 <= j < s.drop_last().len() implies (#[trigger] s.drop_last()[j]).0
            != s[i].0 by {
            assert(s.drop_last()[j] == s[j]);
        }
        assert(!kv_map(s.drop_last()).contains_key(s[i].0));
        assert(kv_map(s.drop_last()).insert(s.last().0, s.last().1).remove(s[i].0) =~= kv_map(
            s.drop_last(),
        ));
    } else {
        lemma_kv_unique_drop_last(s);
        lemma_kv_map_remove(s.drop_last(), i);
        assert(s.remove(i).drop_last() =~= s.drop_last().remove(i));
        assert(s.remove(i).last() == s.last());
        assert(s.drop_last()[i] == s[i]);
        assert(s.last().0 != s[i].0);
        assert(kv_map(s.drop_last()).remove(s[i].0).insert(s.last().0, s.last().1) =~= kv_map(
            s.drop_last(),
        ).insert(s.last().0, s.last().1).remove(s[i].0));
        assert(kv_map(s.remove(i)) =~= kv_map(s).remove(s[i].0));
    }
}

/// Removing the pair at a position keeps the keys unique.
pub proof fn lemma_kv_unique_remove<V>(s: Seq<(Seq<char>, V)>, i: int)
    requires
        kv_unique(s),
        0 <= i < s.len(),
    ensures
        kv_unique(s.remove(i)),
{
    assert forall|a: int, b: int| #![trigger s.remove(i)[a], s.remove(i)[b]]
        0 <= a < b < s.remove(i).len() implies s.remove(i)[a].0 != s.remove(i)[b].0 by {
        let a0: int = if a < i {
            a
        } else {
            a + 1
        };
        let b0: int = if b < i {
            b
        } else {
            b + 1
        };
        assert(s.remove(i)[a] == s[a0]);
        assert(s.remove(i)[b] == s[b0]);
    }
}

} // verus!
