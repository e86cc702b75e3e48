use crate::kvmap::{
    kv_map, kv_unique, lemma_kv_map_contains, lemma_kv_map_push, lemma_kv_map_remove,
};
use crate::rule::{rule_key, rule_views, RuleView, SuperKudo};
use crate::Error;
use vstd::prelude::*;

verus! {

/// The pairs the index holds, as character sequences and rule views.
pub closed spec fn index_pairs(entries: Seq<(String, SuperKudo)>) -> Seq<(Seq<char>, RuleView)> {
    entries.map_values(|p: (String, SuperKudo)| (p.0@, p.1@))
}

/// A sequence of rule views, each keyed by its own identity.
pub open spec fn keyed_by_identity(rules: Seq<RuleView>) -> Seq<(Seq<char>, RuleView)> {
    rules.map_values(|v: RuleView| (rule_key(v), v))
}

/// The in-memory index of declared rules, keyed by their `namespace/name`
/// identity and kept current by the rule reconciliation feed.
pub struct RuleIndex {
    entries: Vec<(String, SuperKudo)>,
}

impl View for RuleIndex {
    type V = Map<Seq<char>, RuleView>;

    /// The identity-to-rule mapping the index holds.
    closed spec fn view(&self) -> Map<Seq<char>, RuleView> {
        kv_map(index_pairs(self.entries@))
    }
}

impl RuleIndex {
    /// The rules the index holds, in storage order.
    pub closed spec fn rules(&self) -> Seq<RuleView> {
        self.entries@.map_values(|p: (String, SuperKudo)| p.1@)
    }

    /// Keys are unique and each entry is keyed by its rule's identity.
    pub closed spec fn wf(&self) -> bool {
        &&& kv_unique(index_pairs(self.entries@))
        &&& forall|i: int|
            0 <= i < self.entries@.len() ==> (#[trigger] index_pairs(self.entries@)[i]).0
                == rule_key(index_pairs(self.entries@)[i].1)
    }

    /// An empty index.
    pub fn new() -> (r: RuleIndex)
        ensures
            r.wf(),
            r@ == Map::<Seq<char>, RuleView>::empty(),
    {
        RuleIndex { entries: Vec::new() }
    }

    fn find(entries: &Vec<(String, SuperKudo)>, key: &String) -> (r: Option<usize>)
        ensures
            match r {
                Some(i) => i < entries@.len() && index_pairs(entries@)[i as int].0 == key@
                    && forall|j: int|
                    0 <= j < i ==> (#[trigger] index_pairs(entries@)[j]).0 != key@,
                None => forall|j: int|
                    0 <= j < entries@.len() ==> (#[trigger] index_pairs(entries@)[j]).0 != key@,
            },
    {
        let n = entries.len();
        for i in 0..n
            invariant
                n == entries.len(),
                forall|j: int| 0 <= j < i ==> (#[trigger] index_pairs(entries@)[j]).0 != key@,
        {
            proof {
                assert(index_pairs(entries@)[i as int] == (
                    entries@[i as int].0@,
                    entries@[i as int].1@,
                ));
            }
            if entries[i].0 == *key {
                return Some(i);
            }
        }
        None
    }

    /// Inserts or replaces the entry for the rule's identity.
    pub fn upsert(&mut self, rule: SuperKudo)
        requires
            old(self).wf(),
        ensures
            final(self).wf(),
            final(self)@ == old(self)@.insert(rule_key(rule@), rule@),
    {
        let ghost rv = rule@;
        let key = rule.namespaced_name();
        let ghost kv = key@;
        let ghost pairs0 = index_pairs(self.entries@);
        match Self::find(&self.entries, &key) {
            Some(i) => {
                let _ = self.entries.remove(i);
                proof {
                    assert(index_pairs(self.entries@) =~= pairs0.remove(i as int));
                    lemma_kv_map_remove(pairs0, i as int);
                    assert forall|j: int| 0 <= j < pairs0.remove(i as int).len() implies (
                    #[trigger] pairs0.remove(i as int)[j]).0 != kv by {
                        if j < i {
                            assert(pairs0.remove(i as int)[j] == pairs0[j]);
                        } else {
                            assert(pairs0.remove(i as int)[j] == pairs0[j + 1]);
                        }
                    }
                }
            },
            None => {},
        }
        let ghost pairs1 = index_pairs(self.entries@);
        self.entries.push((key, rule));
        proof {
            assert(index_pairs(self.entries@) =~= pairs1.push((kv, rv)));
            lemma_kv_map_push(pairs1, (kv, rv));
            assert(final(self)@ =~= old(self)@.insert(kv, rv));
            assert forall|j: int| 0 <= j < self.entries@.len() implies (#[trigger] index_pairs(
                self.entries@,
            )[j]).0 == rule_key(index_pairs(self.entries@)[j].1) by {
                if j < pairs1.len() {
                    assert(index_pairs(self.entries@)[j] == pairs1[j]);
                } else {
                    assert(index_pairs(self.entries@)[j] == (kv, rv));
                }
            }
        }
    }

    /// Deletes the entry for `identity` if one is present; an absent identity
    /// is no error.
    pub fn remove(&mut self, identity: &String)
        requires
            old(self).wf(),
        ensures
            final(self).wf(),
            final(self)@ == old(self)@.remove(identity@),
    {
        let ghost pairs0 = index_pairs(self.entries@);
        match Self::find(&self.entries, identity) {
            Some(i) => {
                let _ = self.entries.remove(i);
                proof {
                    assert(index_pairs(self.entries@) =~= pairs0.remove(i as int));
                    lemma_kv_map_remove(pairs0, i as int);
                    assert forall|j: int| 0 <= j < self.entries@.len() implies (#[trigger] index_pairs(
                        self.entries@,
                    )[j]).0 == rule_key(index_pairs(self.entries@)[j].1) by {
                        if j < i {
                            assert(index_pairs(self.entries@)[j] == pairs0[j]);
                        } else {
                            assert(index_pairs(self.entries@)[j] == pairs0[j + 1]);
                        }
                    }
                }
            },
            None => {
                proof {
                    lemma_kv_map_contains(pairs0, identity@);
                    assert(old(self)@.remove(identity@) =~= old(self)@);
                }
            },
        }
    }

    /// A point-in-time copy of the current rules, safe to iterate while the
    /// index keeps changing: the copy holds exactly the indexed rules.
    pub fn snapshot(&self) -> (r: Vec<SuperKudo>)
        requires
            self.wf(),
        ensures
            rule_views(r@) == self.rules(),
            kv_unique(keyed_by_identity(rule_views(r@))),
            kv_map(keyed_by_identity(rule_views(r@))) == self@,
    {
        let mut r: Vec<SuperKudo> = Vec::new();
        let n = self.entries.len();
        for i in 0..n
            invariant
                n == self.entries.len(),
                rule_views(r@) == self.rules().take(i as int),
        {
            let ghost rs0 = r@;
            r.push(self.entries[i].1.clone());
            proof {
                assert(rule_views(rs0).len() == rs0.len());
                assert(self.rules().take(i as int).len() == i as int);
                assert(rs0.len() == i as int);
                assert forall|j: int| 0 <= j < r@.len() implies rule_views(r@)[j] == self.rules()
                    .take(i as int + 1)[j] by {
                    assert(rule_views(r@)[j] == r@[j]@);
                    if j < i as int {
                        assert(r@[j] == rs0[j]);
                        assert(rule_views(rs0)[j] == rs0[j]@);
                        assert(self.rules().take(i as int)[j] == self.rules()[j]);
                        assert(self.rules().take(i as int + 1)[j] == self.rules()[j]);
                    } else {
                        assert(r@[j]@ == self.entries@[i as int].1@);
                        assert(self.rules()[i as int] == self.entries@[i as int].1@);
                    }
                }
                assert(rule_views(r@) =~= self.rules().take(i as int + 1));
            }
        }
        proof {
            assert(rule_views(r@) =~= self.rules());
            assert(keyed_by_identity(rule_views(r@)) =~= index_pairs(self.entries@));
        }
        r
    }

    /// Applies one observed rule declaration: a rule marked for deletion
    /// leaves the index, any other is inserted or replaces its entry.
    pub fn reconcile(&mut self, rule: &SuperKudo) -> (r: Result<(), Error>)
        requires
            old(self).wf(),
        ensures
            final(self).wf(),
            final(self)@ == (if rule@.marked_for_deletion {
                old(self)@.remove(rule_key(rule@))
            } else {
                old(self)@.insert(rule_key(rule@), rule@)
            }),
            r is Ok,
    {
        if rule.marked_for_deletion {
            let key = rule.namespaced_name();
            self.remove(&key);
        } else {
            self.upsert(rule.clone());
        }
        Ok(())
    }
}

} // verus!
