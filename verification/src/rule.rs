use crate::deployment::Deployment;
use crate::json::{encode_text_object, json_text_object};
use crate::labels::{clone_labels, label_value, labels_view, lookup_label, selector_matches};
use vstd::prelude::*;
use vstd::string::StringExecFns;

verus! {

/// Ghost model of a notification rule: its identity, its deletion marker, and
/// the declared selector, target, and optional custom payload.
pub ghost struct RuleView {
    pub namespace: Seq<char>,
    pub name: Seq<char>,
    pub marked_for_deletion: bool,
    pub selector: Seq<(Seq<char>, Seq<char>)>,
    pub target: Seq<char>,
    pub payload: Option<Seq<char>>,
}

/// The labels a workload must carry, all of them, for a rule to match.
pub struct Selector {
    pub labels: Vec<(String, String)>,
}

/// Where a matched rule's notification goes.
pub struct DeliverTo {
    pub slack: String,
}

/// The declared body of a notification rule: selector, target, and an
/// optional custom payload sent verbatim in place of the default message.
pub struct SuperKudoSpec {
    pub selector: Selector,
    pub deliver_to: DeliverTo,
    pub payload: Option<String>,
}

/// A declared notification rule, identified by `(namespace, name)`. The
/// deletion marker is set when the declaration is on its way out.
pub struct SuperKudo {
    pub namespace: String,
    pub name: String,
    pub marked_for_deletion: bool,
    pub spec: SuperKudoSpec,
}

impl View for SuperKudo {
    type V = RuleView;

    open spec fn view(&self) -> RuleView {
        RuleView {
            namespace: self.namespace@,
            name: self.name@,
            marked_for_deletion: self.marked_for_deletion,
            selector: labels_view(self.spec.selector.labels@),
            target: self.spec.deliver_to.slack@,
            payload: match self.spec.payload {
                Some(p) => Some(p@),
                None => None,
            },
        }
    }
}

impl Clone for SuperKudo {
    fn clone(&self) -> (r: Self)
        ensures
            r@ == self@,
    {
        SuperKudo {
            namespace: self.namespace.clone(),
            name: self.name.clone(),
            marked_for_deletion: self.marked_for_deletion,
            spec: SuperKudoSpec {
                selector: Selector { labels: clone_labels(&self.spec.selector.labels) },
                deliver_to: DeliverTo { slack: self.spec.deliver_to.slack.clone() },
                payload: match &self.spec.payload {
                    Some(p) => Some(p.clone()),
                    None => None,
                },
            },
        }
    }
}

/// The views of a sequence of rules.
pub open spec fn rule_views(rules: Seq<SuperKudo>) -> Seq<RuleView> {
    rules.map_values(|k: SuperKudo| k@)
}

/// The rule's `namespace/name` identity string.
pub open spec fn rule_key(r: RuleView) -> Seq<char> {
    r.namespace + "/"@ + r.name
}

/// The congratulation text of the default notification for a workload name.
pub open spec fn default_text(name: Option<Seq<char>>) -> Seq<char> {
    "Congrats! You just finished deploying "@ + (match name {
        Some(n) => n,
        None => "<unknown>"@,
    }) + "!"@
}

/// The notification body a rule sends for a completed workload: the custom
/// payload verbatim when one is declared, else the default JSON message.
pub open spec fn payload_view(r: RuleView, d: crate::deployment::DeploymentView) -> Seq<char> {
    match r.payload {
        Some(p) => p,
        None => json_text_object(default_text(d.name)),
    }
}

impl SuperKudo {
    /// The rule's `namespace/name` identity string.
    pub fn namespaced_name(&self) -> (r: String)
        ensures
            r@ == rule_key(self@),
    {
        let mut r = self.namespace.clone();
        r.append("/");
        r.append(self.name.as_str());
        r
    }

    /// Decides whether this rule's selector is satisfied by the workload's
    /// labels: every selector key present with an equal value.
    pub fn does_target_deployment(&self, deployment: &Deployment) -> (r: bool)
        ensures
            r == selector_matches(self@.selector, deployment@.labels),
    {
        let n = self.spec.selector.labels.len();
        for i in 0..n
            invariant
                n == self.spec.selector.labels.len(),
                forall|j: int|
                    0 <= j < i ==> label_value(deployment@.labels, self@.selector[j].0) == Some(
                        self@.selector[j].1,
                    ),
        {
            let entry = &self.spec.selector.labels[i];
            proof {
                assert(self@.selector[i as int] == (entry.0@, entry.1@));
            }
            let found = lookup_label(&deployment.labels, &entry.0);
            match found {
                Some(v) => {
                    if !(*v == entry.1) {
                        proof {
                            assert(label_value(deployment@.labels, self@.selector[i as int].0)
                                != Some(self@.selector[i as int].1));
                        }
                        return false;
                    }
                },
                None => {
                    proof {
                        assert(label_value(deployment@.labels, self@.selector[i as int].0)
                            != Some(self@.selector[i as int].1));
                    }
                    return false;
                },
            }
        }
        true
    }

    /// Builds the notification body for a completed workload.
    pub fn payload(&self, deployment: &Deployment) -> (r: String)
        ensures
            r@ == payload_view(self@, deployment@),
    {
        match &self.spec.payload {
            Some(p) => p.clone(),
            None => {
                let mut text = String::from_str("Congrats! You just finished deploying ");
                match &deployment.name {
                    Some(n) => text.append(n.as_str()),
                    None => text.append("<unknown>"),
                }
                text.append("!");
                encode_text_object(text.as_str())
            },
        }
    }
}

} // verus!
