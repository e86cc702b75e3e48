use crate::labels::labels_view;
use vstd::prelude::*;
use vstd::string::StringExecFns;

verus! {

/// Ghost model of an observed workload: identity, labels, the three replica
/// counts, and the generation counter. Absent counts mean "not yet known".
pub ghost struct DeploymentView {
    pub namespace: Option<Seq<char>>,
    pub name: Option<Seq<char>>,
    pub labels: Seq<(Seq<char>, Seq<char>)>,
    pub declared_replicas: Option<i32>,
    pub observed_replicas: Option<i32>,
    pub ready_replicas: Option<i32>,
    pub generation: Option<i64>,
}

/// An observed workload, as the surrounding watch machinery hands it in:
/// plain values only, read-only for this library.
pub struct Deployment {
    pub namespace: Option<String>,
    pub name: Option<String>,
    pub labels: Vec<(String, String)>,
    pub declared_replicas: Option<i32>,
    pub observed_replicas: Option<i32>,
    pub ready_replicas: Option<i32>,
    pub generation: Option<i64>,
}

impl View for Deployment {
    type V = DeploymentView;

    open spec fn view(&self) -> DeploymentView {
        DeploymentView {
            namespace: match self.namespace {
                Some(s) => Some(s@),
                None => None,
            },
            name: match self.name {
                Some(s) => Some(s@),
                None => None,
            },
            labels: labels_view(self.labels@),
            declared_replicas: self.declared_replicas,
            observed_replicas: self.observed_replicas,
            ready_replicas: self.ready_replicas,
            generation: self.generation,
        }
    }
}

/// A rollout is complete exactly when the declared, observed, and ready
/// replica counts are all present and all equal. A missing count is "not yet
/// known", never an error.
pub open spec fn is_complete(d: DeploymentView) -> bool {
    &&& d.declared_replicas is Some
    &&& d.observed_replicas is Some
    &&& d.ready_replicas is Some
    &&& d.declared_replicas == d.observed_replicas
    &&& d.observed_replicas == d.ready_replicas
}

/// The `namespace/name` identity string of a workload, or `<unknown>` when
/// either part is missing.
pub open spec fn deployment_key(d: DeploymentView) -> Seq<char> {
    match (d.namespace, d.name) {
        (Some(ns), Some(n)) => ns + "/"@ + n,
        _ => "<unknown>"@,
    }
}

/// Rollout-oriented reading of a workload object.
pub trait DeploymentExt: View<V = DeploymentView> {
    /// Decides whether the workload's rollout has finished.
    fn finished_deploying(&self) -> (r: bool)
        ensures
            r == is_complete(self@),
    ;

    /// The workload's `namespace/name` identity string.
    fn namespaced_name(&self) -> (r: String)
        ensures
            r@ == deployment_key(self@),
    ;
}

impl DeploymentExt for Deployment {
    fn finished_deploying(&self) -> (r: bool)
        ensures
            r == is_complete(self@),
    {
        match (self.declared_replicas, self.observed_replicas, self.ready_replicas) {
            (Some(declared), Some(observed), Some(ready)) => ready == observed && observed
                == declared,
            _ => false,
        }
    }

    fn namespaced_name(&self) -> (r: String)
        ensures
            r@ == deployment_key(self@),
    {
        match (&self.namespace, &self.name) {
            (Some(ns), Some(n)) => {
                let mut r = ns.clone();
                r.append("/");
                r.append(n.as_str());
                r
            },
            _ => "<unknown>".to_owned(),
        }
    }
}

/// A workload with any of the three replica counts missing is never complete,
/// whatever the other fields hold.
pub proof fn lemma_absent_count_incomplete(d: DeploymentView)
    requires
        d.declared_replicas is None || d.observed_replicas is None || d.ready_replicas is None,
    ensures
        !is_complete(d),
{
}

} // verus!
