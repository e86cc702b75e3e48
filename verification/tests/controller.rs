use kudoz::dedupe::GenerationCache;
use kudoz::deployment::{Deployment, DeploymentExt};
use kudoz::engine::{handle_deployment_event, matching_rules, DeploymentEvent, Dispatch};
use kudoz::rule::{DeliverTo, Selector, SuperKudo, SuperKudoSpec};
use kudoz::rule_index::RuleIndex;

fn pairs(entries: &[(&str, &str)]) -> Vec<(String, String)> {
    entries.iter().map(|(k, v)| (k.to_string(), v.to_string())).collect()
}

fn deployment(
    name: &str,
    labels: &[(&str, &str)],
    declared: Option<i32>,
    observed: Option<i32>,
    ready: Option<i32>,
    generation: Option<i64>,
) -> Deployment {
    Deployment {
        namespace: Some("prod".to_string()),
        name: Some(name.to_string()),
        labels: pairs(labels),
        declared_replicas: declared,
        observed_replicas: observed,
        ready_replicas: ready,
        generation,
    }
}

fn rule(name: &str, selector: &[(&str, &str)], target: &str) -> SuperKudo {
    SuperKudo {
        namespace: "team-ns".to_string(),
        name: name.to_string(),
        marked_for_deletion: false,
        spec: SuperKudoSpec {
            selector: Selector { labels: pairs(selector) },
            deliver_to: DeliverTo { slack: target.to_string() },
            payload: None,
        },
    }
}

fn text_field(payload: &str) -> String {
    let value: serde_json::Value = serde_json::from_str(payload).expect("payload is JSON");
    value
        .as_object()
        .expect("payload is an object")
        .get("text")
        .expect("payload has a text field")
        .as_str()
        .expect("text is a string")
        .to_string()
}

#[test]
fn finished_deploying_when_all_counts_equal() {
    let d = deployment("api", &[], Some(3), Some(3), Some(3), Some(1));
    assert!(d.finished_deploying());
}

#[test]
fn not_finished_when_counts_differ() {
    let d = deployment("api", &[], Some(3), Some(3), Some(2), Some(1));
    assert!(!d.finished_deploying());
    let d = deployment("api", &[], Some(4), Some(3), Some(3), Some(1));
    assert!(!d.finished_deploying());
}

#[test]
fn not_finished_when_any_count_absent() {
    let cases: &[(Option<i32>, Option<i32>, Option<i32>)] = &[
        (None, None, None),
        (None, None, Some(3)),
        (None, Some(3), None),
        (None, Some(3), Some(3)),
        (Some(3), None, None),
        (Some(3), None, Some(3)),
        (Some(3), Some(3), None),
    ];
    for (declared, observed, ready) in cases.iter().copied() {
        let d = deployment("api", &[], declared, observed, ready, Some(1));
        assert!(!d.finished_deploying());
    }
}

#[test]
fn deployment_namespaced_name_joins_namespace_and_name() {
    let d = deployment("api", &[], Some(1), Some(1), Some(1), None);
    assert_eq!(d.namespaced_name(), "prod/api");
}

#[test]
fn deployment_namespaced_name_unknown_when_missing() {
    let mut d = deployment("api", &[], Some(1), Some(1), Some(1), None);
    d.namespace = None;
    assert_eq!(d.namespaced_name(), "<unknown>");
    let mut d = deployment("api", &[], Some(1), Some(1), Some(1), None);
    d.name = None;
    assert_eq!(d.namespaced_name(), "<unknown>");
}

#[test]
fn rule_namespaced_name_joins_namespace_and_name() {
    let r = rule("congratulator", &[], "https://hook/x");
    assert_eq!(r.namespaced_name(), "team-ns/congratulator");
}

#[test]
fn selector_matches_when_all_pairs_present() {
    let r = rule("k", &[("team", "payments")], "https://hook/x");
    let d = deployment("api", &[("team", "payments"), ("app", "api")], None, None, None, None);
    assert!(r.does_target_deployment(&d));
}

#[test]
fn selector_rejects_on_different_value() {
    let r = rule("k", &[("team", "payments")], "https://hook/x");
    let d = deployment("api", &[("team", "billing")], None, None, None, None);
    assert!(!r.does_target_deployment(&d));
}

#[test]
fn selector_rejects_on_absent_key() {
    let r = rule("k", &[("team", "payments")], "https://hook/x");
    let d = deployment("api", &[("app", "api")], None, None, None, None);
    assert!(!r.does_target_deployment(&d));
}

#[test]
fn empty_selector_matches_everything() {
    let r = rule("k", &[], "https://hook/x");
    let d = deployment("api", &[], None, None, None, None);
    assert!(r.does_target_deployment(&d));
    let d = deployment("api", &[("any", "label")], None, None, None, None);
    assert!(r.does_target_deployment(&d));
}

#[test]
fn default_payload_names_the_workload() {
    let r = rule("k", &[], "https://hook/x");
    let d = deployment("checkout", &[], Some(1), Some(1), Some(1), Some(1));
    let payload = r.payload(&d);
    assert_eq!(text_field(&payload), "Congrats! You just finished deploying checkout!");
}

#[test]
fn default_payload_for_nameless_workload() {
    let r = rule("k", &[], "https://hook/x");
    let mut d = deployment("checkout", &[], Some(1), Some(1), Some(1), Some(1));
    d.name = None;
    let payload = r.payload(&d);
    assert_eq!(text_field(&payload), "Congrats! You just finished deploying <unknown>!");
}

#[test]
fn default_payload_escapes_the_name() {
    let r = rule("k", &[], "https://hook/x");
    let mut d = deployment("checkout", &[], Some(1), Some(1), Some(1), Some(1));
    d.name = Some("a\"b\\c".to_string());
    let payload = r.payload(&d);
    assert_eq!(text_field(&payload), "Congrats! You just finished deploying a\"b\\c!");
}

#[test]
fn custom_payload_sent_verbatim() {
    let mut r = rule("k", &[], "https://hook/x");
    r.spec.payload = Some("{\"color\":\"green\",\"count\":2}".to_string());
    let d = deployment("checkout", &[], Some(1), Some(1), Some(1), Some(1));
    assert_eq!(r.payload(&d), "{\"color\":\"green\",\"count\":2}");
}

#[test]
fn generation_baseline_admits_each_change_once() {
    let mut cache = GenerationCache::new();
    let key = "prod/api".to_string();
    assert!(cache.should_process(&key, 5));
    assert!(!cache.should_process(&key, 5));
    assert!(cache.should_process(&key, 6));
    assert!(!cache.should_process(&key, 6));
    // an older generation differs from the recorded one, so it is admitted
    assert!(cache.should_process(&key, 5));
    // independent identities do not interfere
    let other = "prod/web".to_string();
    assert!(cache.should_process(&other, 5));
    assert!(!cache.should_process(&other, 5));
}

#[test]
fn rule_index_upsert_replaces_and_remove_deletes() {
    let mut index = RuleIndex::new();
    index.upsert(rule("one", &[("team", "payments")], "https://hook/1"));
    index.upsert(rule("two", &[], "https://hook/2"));
    assert_eq!(index.snapshot().len(), 2);

    // replacing the entry of an existing identity does not grow the index
    index.upsert(rule("one", &[("team", "billing")], "https://hook/1b"));
    let snapshot = index.snapshot();
    assert_eq!(snapshot.len(), 2);
    let replaced = snapshot
        .iter()
        .find(|r| r.name == "one")
        .expect("rule one is still indexed");
    assert_eq!(replaced.spec.deliver_to.slack, "https://hook/1b");

    index.remove(&"team-ns/one".to_string());
    assert_eq!(index.snapshot().len(), 1);
    // removing an absent identity is no error
    index.remove(&"team-ns/one".to_string());
    assert_eq!(index.snapshot().len(), 1);
}

#[test]
fn reconcile_upserts_and_honours_deletion_marker() {
    let mut index = RuleIndex::new();
    let r = rule("one", &[], "https://hook/1");
    assert!(index.reconcile(&r).is_ok());
    assert_eq!(index.snapshot().len(), 1);

    let mut gone = rule("one", &[], "https://hook/1");
    gone.marked_for_deletion = true;
    assert!(index.reconcile(&gone).is_ok());
    assert_eq!(index.snapshot().len(), 0);
}

#[test]
fn matching_rules_keeps_exactly_the_matches() {
    let snapshot = vec![
        rule("one", &[("team", "payments")], "https://hook/1"),
        rule("two", &[("team", "billing")], "https://hook/2"),
        rule("three", &[], "https://hook/3"),
    ];
    let d = deployment("api", &[("team", "payments")], None, None, None, None);
    let matched = matching_rules(&snapshot, &d);
    let names: Vec<&str> = matched.iter().map(|r| r.name.as_str()).collect();
    assert_eq!(names, vec!["one", "three"]);
}

fn completed_event(name: &str, labels: &[(&str, &str)], generation: i64) -> DeploymentEvent {
    DeploymentEvent::Applied(deployment(name, labels, Some(3), Some(3), Some(3), Some(generation)))
}

#[test]
fn completion_dispatches_once_per_generation() {
    let snapshot = vec![rule("k", &[("team", "payments")], "https://hook/x")];
    let mut cache = GenerationCache::new();

    let event = completed_event("checkout", &[("team", "payments"), ("app", "api")], 5);
    let dispatches = handle_deployment_event(&event, &mut cache, &snapshot);
    assert_eq!(dispatches.len(), 1);
    assert_eq!(dispatches[0].target, "https://hook/x");
    assert!(text_field(&dispatches[0].payload).contains("checkout"));

    // a repeat delivery of the same generation is skipped
    let again = completed_event("checkout", &[("team", "payments"), ("app", "api")], 5);
    let dispatches = handle_deployment_event(&again, &mut cache, &snapshot);
    assert_eq!(dispatches.len(), 0);

    // the next generation is dispatched again, exactly once
    let next = completed_event("checkout", &[("team", "payments"), ("app", "api")], 6);
    let dispatches = handle_deployment_event(&next, &mut cache, &snapshot);
    assert_eq!(dispatches.len(), 1);
}

#[test]
fn no_match_means_no_dispatch() {
    let snapshot = vec![rule("k", &[("team", "payments")], "https://hook/x")];
    let mut cache = GenerationCache::new();
    let event = completed_event("checkout", &[("team", "billing")], 5);
    let dispatches = handle_deployment_event(&event, &mut cache, &snapshot);
    assert_eq!(dispatches.len(), 0);
}

#[test]
fn two_matching_rules_yield_two_independent_dispatches() {
    let snapshot = vec![
        rule("one", &[("team", "payments")], "https://hook/1"),
        rule("two", &[("app", "api")], "https://hook/2"),
    ];
    let mut cache = GenerationCache::new();
    let event = completed_event("checkout", &[("team", "payments"), ("app", "api")], 5);
    let dispatches: Vec<Dispatch> = handle_deployment_event(&event, &mut cache, &snapshot);
    let targets: Vec<&str> = dispatches.iter().map(|a| a.target.as_str()).collect();
    assert_eq!(targets, vec!["https://hook/1", "https://hook/2"]);
}

#[test]
fn incomplete_rollout_is_skipped_and_not_recorded() {
    let snapshot = vec![rule("k", &[], "https://hook/x")];
    let mut cache = GenerationCache::new();

    let rolling = DeploymentEvent::Applied(deployment("api", &[], Some(3), Some(2), Some(2), Some(5)));
    assert_eq!(handle_deployment_event(&rolling, &mut cache, &snapshot).len(), 0);

    // the same generation still dispatches once it completes
    let done = completed_event("api", &[], 5);
    assert_eq!(handle_deployment_event(&done, &mut cache, &snapshot).len(), 1);
}

#[test]
fn only_applied_events_are_acted_on() {
    let snapshot = vec![rule("k", &[], "https://hook/x")];
    let mut cache = GenerationCache::new();

    let deleted = DeploymentEvent::Deleted(deployment("api", &[], Some(3), Some(3), Some(3), Some(5)));
    assert_eq!(handle_deployment_event(&deleted, &mut cache, &snapshot).len(), 0);

    let replayed = DeploymentEvent::Restarted(vec![deployment(
        "api",
        &[],
        Some(3),
        Some(3),
        Some(3),
        Some(5),
    )]);
    assert_eq!(handle_deployment_event(&replayed, &mut cache, &snapshot).len(), 0);

    // the replayed completion was not recorded, so a live event still fires
    let live = completed_event("api", &[], 5);
    assert_eq!(handle_deployment_event(&live, &mut cache, &snapshot).len(), 1);
}

#[test]
fn completion_without_generation_is_never_deduplicated() {
    let snapshot = vec![rule("k", &[], "https://hook/x")];
    let mut cache = GenerationCache::new();
    let event = DeploymentEvent::Applied(deployment("api", &[], Some(1), Some(1), Some(1), None));
    assert_eq!(handle_deployment_event(&event, &mut cache, &snapshot).len(), 1);
    let event = DeploymentEvent::Applied(deployment("api", &[], Some(1), Some(1), Some(1), None));
    assert_eq!(handle_deployment_event(&event, &mut cache, &snapshot).len(), 1);
}
