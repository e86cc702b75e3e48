use crate::kvmap::{
    kv_map, kv_unique, lemma_kv_map_contains, lemma_kv_map_push, lemma_kv_map_remove,
    lemma_kv_map_value,
};
use vstd::prelude::*;

verus! {

/// `true` when a generation of a workload identity may be processed: nothing
/// recorded for the identity yet, or a recorded generation that differs.
pub open spec fn admits(cache: Map<Seq<char>, i64>, key: Seq<char>, generation: i64) -> bool {
    !(cache.contains_key(key) && cache[key] == generation)
}

/// Per-workload last-processed generations, preventing a completion from
/// being processed twice. Entries are never evicted.
pub struct GenerationCache {
    entries: Vec<(String, i64)>,
}

/// The pairs the cache holds, as sequences of characters and numbers.
pub closed spec fn cache_pairs(entries: Seq<(String, i64)>) -> Seq<(Seq<char>, i64)> {
    entries.map_values(|p: (String, i64)| (p.0@, p.1))
}

impl View for GenerationCache {
    type V = Map<Seq<char>, i64>;

    /// The identity-to-generation mapping the cache holds.
    closed spec fn view(&self) -> Map<Seq<char>, i64> {
        kv_map(cache_pairs(self.entries@))
    }
}

impl GenerationCache {
    /// No two entries carry the same identity.
    pub closed spec fn wf(&self) -> bool {
        kv_unique(cache_pairs(self.entries@))
    }

    /// An empty cache: every identity is unrecorded.
    pub fn new() -> (r: GenerationCache)
        ensures
            r.wf(),
            r@ == Map::<Seq<char>, i64>::empty(),
    {
        GenerationCache { entries: Vec::new() }
    }

    /// Decides whether `generation` of the identity `key` is to be processed,
    /// and records it as the new last-processed generation in the same step.
    /// Returns `false`, leaving the mapping unchanged, exactly when `key`
    /// already maps to `generation`.
    pub fn should_process(&mut self, key: &String, generation: i64) -> (r: bool)
        requires
            old(self).wf(),
        ensures
            final(self).wf(),
            r == admits(old(self)@, key@, generation),
            final(self)@ == old(self)@.insert(key@, generation),
    {
        let ghost pairs0 = cache_pairs(self.entries@);
        let n = self.entries.len();
        for i in 0..n
            invariant
                n == self.entries.len(),
                self.entries@ == old(self).entries@,
                pairs0 == cache_pairs(self.entries@),
                kv_unique(pairs0),
                forall|j: int| 0 <= j < i ==> (#[trigger] pairs0[j]).0 != key@,
        {
            if self.entries[i].0 == *key {
                proof {
                    assert(pairs0[i as int] == (key@, self.entries@[i as int].1));
                    lemma_kv_map_value(pairs0, i as int);
                    assert(old(self)@ == kv_map(pairs0));
                }
                if self.entries[i].1 == generation {
                    proof {
                        assert(old(self)@.insert(key@, generation) =~= old(self)@);
                    }
                    return false;
                }
                let _ = self.entries.remove(i);
                proof {
                    assert(cache_pairs(self.entries@) =~= pairs0.remove(i as int));
                    lemma_kv_map_remove(pairs0, i as int);
                    lemma_kv_map_contains(pairs0.remove(i as int), key@);
                    assert(forall|j: int|
                        0 <= j < pairs0.remove(i as int).len() ==> (#[trigger] pairs0.remove(
                            i as int,
                        )[j]).0 != key@);
                }
                let ghost pairs1 = cache_pairs(self.entries@);
                self.entries.push((key.clone(), generation));
                proof {
                    assert(cache_pairs(self.entries@) =~= pairs1.push((key@, generation)));
                    lemma_kv_map_push(pairs1, (key@, generation));
                    assert(self@ =~= old(self)@.insert(key@, generation));
                }
                return true;
            }
        }
        proof {
            lemma_kv_map_contains(pairs0, key@);
        }
        self.entries.push((key.clone(), generation));
        proof {
            assert(cache_pairs(self.entries@) =~= pairs0.push((key@, generation)));
            lemma_kv_map_push(pairs0, (key@, generation));
        }
        true
    }
}

/// The generation baseline behaves as declared: the first offer of a
/// generation is admitted; an immediate repeat of the same generation is
/// refused; a different generation is admitted again, exactly once.
pub proof fn lemma_generation_baseline(
    cache: Map<Seq<char>, i64>,
    key: Seq<char>,
    generation: i64,
    other: i64,
)
    requires
        !cache.contains_key(key),
        other != generation,
    ensures
        admits(cache, key, generation),
        !admits(cache.insert(key, generation), key, generation),
        admits(cache.insert(key, generation), key, other),
        !admits(cache.insert(key, generation).insert(key, other), key, other),
{
}

} // verus!
