use crate::dedupe::{admits, GenerationCache};
use crate::deployment::{deployment_key, is_complete, Deployment, DeploymentExt, DeploymentView};
use crate::labels::selector_matches;
use crate::rule::{payload_view, rule_views, RuleView, SuperKudo};
use vstd::prelude::*;

verus! {

/// Ghost model of one outbound notification attempt: where it goes and what
/// it carries.
pub ghost struct DispatchView {
    pub target: Seq<char>,
    pub payload: Seq<char>,
}

/// One outbound notification attempt, handed to the surrounding process for
/// delivery; attempts are independent of one another.
pub struct Dispatch {
    pub target: String,
    pub payload: String,
}

impl View for Dispatch {
    type V = DispatchView;

    open spec fn view(&self) -> DispatchView {
        DispatchView { target: self.target@, payload: self.payload@ }
    }
}

/// The views of a sequence of dispatches.
pub open spec fn dispatch_views(dispatches: Seq<Dispatch>) -> Seq<DispatchView> {
    dispatches.map_values(|a: Dispatch| a@)
}

/// One observed workload event. Only applied events are acted on; the bulk
/// replay after a watch restart is excluded on purpose, so that historical
/// completions are not reprocessed on every process start.
pub enum DeploymentEvent {
    Applied(Deployment),
    Deleted(Deployment),
    Restarted(Vec<Deployment>),
}

/// The rules of a snapshot whose selector the labels satisfy, in snapshot
/// order.
pub open spec fn matching_views(
    rules: Seq<RuleView>,
    labels: Seq<(Seq<char>, Seq<char>)>,
) -> Seq<RuleView>
    decreases rules.len(),
{
    if rules.len() == 0 {
        Seq::empty()
    } else {
        let init = matching_views(rules.drop_last(), labels);
        if selector_matches(rules.last().selector, labels) {
            init.push(rules.last())
        } else {
            init
        }
    }
}

/// The dispatch a rule fires for a completed workload.
pub open spec fn dispatch_view(r: RuleView, d: DeploymentView) -> DispatchView {
    DispatchView { target: r.target, payload: payload_view(r, d) }
}

/// The dispatches a completed workload causes under a rule snapshot: one per
/// matching rule, independently of the others.
pub open spec fn dispatches_for(rules: Seq<RuleView>, d: DeploymentView) -> Seq<DispatchView> {
    matching_views(rules, d.labels).map_values(|r: RuleView| dispatch_view(r, d))
}

/// The recorded generations after one workload event is consumed: a
/// completed rollout with a known generation is recorded, everything else
/// leaves the record unchanged.
pub open spec fn cache_after(cache: Map<Seq<char>, i64>, d: DeploymentView) -> Map<Seq<char>, i64> {
    match d.generation {
        Some(g) => if is_complete(d) {
            cache.insert(deployment_key(d), g)
        } else {
            cache
        },
        None => cache,
    }
}

/// Whether a workload event is processed rather than skipped: the rollout is
/// complete, and its generation, when known, is not the one already recorded.
pub open spec fn should_dispatch(cache: Map<Seq<char>, i64>, d: DeploymentView) -> bool {
    is_complete(d) && (match d.generation {
        Some(g) => admits(cache, deployment_key(d), g),
        None => true,
    })
}

/// The dispatches one applied workload event causes under the given recorded
/// generations and rule snapshot.
pub open spec fn event_dispatches(
    cache: Map<Seq<char>, i64>,
    rules: Seq<RuleView>,
    d: DeploymentView,
) -> Seq<DispatchView> {
    if should_dispatch(cache, d) {
        dispatches_for(rules, d)
    } else {
        Seq::empty()
    }
}

/// Computes the rules of the snapshot that match the workload's labels.
pub fn matching_rules(snapshot: &Vec<SuperKudo>, deployment: &Deployment) -> (r: Vec<SuperKudo>)
    ensures
        rule_views(r@) == matching_views(rule_views(snapshot@), deployment@.labels),
{
    let ghost vs = rule_views(snapshot@);
    let mut r: Vec<SuperKudo> = Vec::new();
    let n = snapshot.len();
    for i in 0..n
        invariant
            n == snapshot.len(),
            vs == rule_views(snapshot@),
            rule_views(r@) == matching_views(vs.take(i as int), deployment@.labels),
    {
        proof {
            assert(vs[i as int] == snapshot@[i as int]@);
            assert(vs.take(i as int + 1).drop_last() =~= vs.take(i as int));
            assert(vs.take(i as int + 1).last() == vs[i as int]);
        }
        if snapshot[i].does_target_deployment(deployment) {
            let ghost rs0 = r@;
            r.push(snapshot[i].clone());
            proof {
                assert(rule_views(rs0).len() == rs0.len());
                assert forall|j: int| 0 <= j < r@.len() implies rule_views(r@)[j] == rule_views(
                    rs0,
                ).push(vs[i as int])[j] by {
                    assert(rule_views(r@)[j] == r@[j]@);
                    if j < rs0.len() {
                        assert(r@[j] == rs0[j]);
                        assert(rule_views(rs0)[j] == rs0[j]@);
                    }
                }
                assert(rule_views(r@) =~= rule_views(rs0).push(vs[i as int]));
            }
        }
    }
    proof {
        assert(vs.take(n as int) =~= vs);
    }
    r
}

/// Consumes one workload event: an applied event for a completed rollout
/// whose generation is not already recorded yields one dispatch per matching
/// rule of the snapshot, and records the generation; every other event is
/// skipped. The dedupe check and the record update are one step of the same
/// call, so no two deliveries of one generation can both pass it.
pub fn handle_deployment_event(
    event: &DeploymentEvent,
    cache: &mut GenerationCache,
    snapshot: &Vec<SuperKudo>,
) -> (r: Vec<Dispatch>)
    requires
        old(cache).wf(),
    ensures
        final(cache).wf(),
        match event {
            DeploymentEvent::Applied(d) => final(cache)@ == cache_after(old(cache)@, d@)
                && dispatch_views(r@) == event_dispatches(
                old(cache)@,
                rule_views(snapshot@),
                d@,
            ),
            _ => final(cache)@ == old(cache)@ && r@.len() == 0,
        },
{
    match event {
        DeploymentEvent::Applied(deployment) => {
            if deployment.finished_deploying() {
                let mut proceed = true;
                match deployment.generation {
                    Some(generation) => {
                        let key = deployment.namespaced_name();
                        if !cache.should_process(&key, generation) {
                            proceed = false;
                        }
                    },
                    None => {},
                }
                if proceed {
                    let matched = matching_rules(snapshot, deployment);
                    let ghost want = dispatches_for(rule_views(snapshot@), deployment@);
                    proof {
                        assert(want == rule_views(matched@).map_values(
                            |rv: RuleView| dispatch_view(rv, deployment@),
                        ));
                    }
                    let mut dispatches: Vec<Dispatch> = Vec::new();
                    let n = matched.len();
                    for i in 0..n
                        invariant
                            n == matched.len(),
                            want == rule_views(matched@).map_values(
                                |rv: RuleView| dispatch_view(rv, deployment@),
                            ),
                            dispatch_views(dispatches@) == want.take(i as int),
                    {
                        let next = Dispatch {
                            target: matched[i].spec.deliver_to.slack.clone(),
                            payload: matched[i].payload(deployment),
                        };
                        proof {
                            assert(rule_views(matched@)[i as int] == matched@[i as int]@);
                            assert(next@ == want[i as int]);
                        }
                        let ghost ds0 = dispatches@;
                        dispatches.push(next);
                        proof {
                            assert(dispatch_views(ds0).len() == ds0.len());
                            assert forall|j: int|
                                0 <= j < dispatches@.len() implies dispatch_views(dispatches@)[j]
                                == want.take(i as int + 1)[j] by {
                                assert(dispatch_views(dispatches@)[j] == dispatches@[j]@);
                                if j < ds0.len() {
                                    assert(dispatches@[j] == ds0[j]);
                                    assert(dispatch_views(ds0)[j] == ds0[j]@);
                                }
                            }
                            assert(dispatch_views(dispatches@) =~= want.take(i as int + 1));
                        }
                    }
                    proof {
                        assert(want.take(n as int) =~= want);
                    }
                    dispatches
                } else {
                    Vec::new()
                }
            } else {
                Vec::new()
            }
        },
        _ => Vec::new(),
    }
}

/// A snapshot of a single rule yields a match exactly when every selector
/// pair of that rule is present in the workload's labels with an equal value.
pub proof fn lemma_singleton_match(rule: RuleView, labels: Seq<(Seq<char>, Seq<char>)>)
    ensures
        matching_views(seq![rule], labels).len() > 0 <==> selector_matches(rule.selector, labels),
{
    let s = seq![rule];
    assert(s.drop_last() =~= Seq::<RuleView>::empty());
    assert(s.last() == rule);
    assert(matching_views(Seq::<RuleView>::empty(), labels) == Seq::<RuleView>::empty());
    if selector_matches(rule.selector, labels) {
        assert(matching_views(s, labels) == matching_views(s.drop_last(), labels).push(rule));
        assert(matching_views(s, labels).len() == 1);
    } else {
        assert(matching_views(s, labels) == matching_views(s.drop_last(), labels));
    }
}

/// A processed completion event fans out to exactly one dispatch per
/// matching rule, each aimed at that rule's own target, independently of the
/// other matches.
pub proof fn lemma_one_dispatch_per_match(
    cache: Map<Seq<char>, i64>,
    rules: Seq<RuleView>,
    d: DeploymentView,
)
    requires
        should_dispatch(cache, d),
    ensures
        event_dispatches(cache, rules, d).len() == matching_views(rules, d.labels).len(),
        forall|i: int|
            0 <= i < matching_views(rules, d.labels).len() ==> #[trigger] event_dispatches(
                cache,
                rules,
                d,
            )[i] == dispatch_view(matching_views(rules, d.labels)[i], d),
{
}

/// Matching is a property of the rule and the labels alone: a rule is among
/// the matches exactly when it is in the snapshot and its selector is
/// satisfied, wherever in the snapshot it stands.
pub proof fn lemma_match_is_membership(
    rules: Seq<RuleView>,
    labels: Seq<(Seq<char>, Seq<char>)>,
    rv: RuleView,
)
    ensures
        matching_views(rules, labels).contains(rv) <==> (rules.contains(rv) && selector_matches(
            rv.selector,
            labels,
        )),
    decreases rules.len(),
{
    if rules.len() > 0 {
        let init = matching_views(rules.drop_last(), labels);
        lemma_match_is_membership(rules.drop_last(), labels, rv);
        if rules.contains(rv) {
            let i = choose|i: int| 0 <= i < rules.len() && rules[i] == rv;
            if i < rules.len() - 1 {
                assert(rules.drop_last()[i] == rv);
            }
        }
        if rules.drop_last().contains(rv) {
            let i = choose|i: int|
                0 <= i < rules.drop_last().len() && rules.drop_last()[i] == rv;
            assert(rules[i] == rv);
        }
        assert(rules[rules.len() - 1] == rules.last());
        if selector_matches(rules.last().selector, labels) {
            let pushed = init.push(rules.last());
            assert(matching_views(rules, labels) == pushed);
            if pushed.contains(rv) {
                let i = choose|i: int| 0 <= i < pushed.len() && pushed[i] == rv;
                if i < init.len() {
                    assert(init[i] == rv);
                }
            }
            if init.contains(rv) {
                let i = choose|i: int| 0 <= i < init.len() && init[i] == rv;
                assert(pushed[i] == rv);
            }
            assert(pushed[init.len() as int] == rules.last());
        }
    }
}

/// Delivering the same completion event again, with the same known
/// generation, causes no further dispatches: the first delivery recorded the
/// generation, and the record refuses it from then on.
pub proof fn lemma_duplicate_delivery_skipped(
    cache: Map<Seq<char>, i64>,
    rules: Seq<RuleView>,
    d: DeploymentView,
)
    requires
        d.generation is Some,
    ensures
        event_dispatches(cache_after(cache, d), rules, d).len() == 0,
{
}

} // verus!
