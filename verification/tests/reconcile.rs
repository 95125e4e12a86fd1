//! The pre-upload phase: refresh, cycle-breaking, binding resolution.

use wrangler::durable_objects::DurableObjectsTarget;
use wrangler::error::DeployError;
use wrangler::registry::NamespaceRecord;
use wrangler::settings::DurableObjectNamespaceImpl;
use wrangler::settings::DurableObjects;
use wrangler::settings::UsedBinding;

fn record(name: &str, id: &str, script: Option<&str>, class: Option<&str>) -> NamespaceRecord {
    NamespaceRecord {
        name: name.to_string(),
        id: id.to_string(),
        script: script.map(|s| s.to_string()),
        class: class.map(|s| s.to_string()),
    }
}

fn implemented(name: &str, class: &str) -> DurableObjectNamespaceImpl {
    DurableObjectNamespaceImpl {
        namespace_name: name.to_string(),
        class_name: class.to_string(),
    }
}

fn used(name: &str) -> UsedBinding {
    UsedBinding {
        namespace_name: Some(name.to_string()),
        namespace_id: None,
    }
}

fn target(
    implements: Vec<DurableObjectNamespaceImpl>,
    uses: Vec<UsedBinding>,
) -> DurableObjectsTarget {
    DurableObjectsTarget::new(
        "acct".to_string(),
        "my-script".to_string(),
        DurableObjects {
            implements: Some(implements),
            uses: Some(uses),
        },
    )
}

#[test]
fn self_referential_namespace_is_planned_once() {
    let mut t = target(
        vec![implemented("Counter", "Counter")],
        vec![used("Counter"), used("Counter")],
    );
    t.get_existing_namespaces(vec![]);
    let plan = t.init_self_referential_namespaces();
    assert_eq!(plan, vec!["Counter".to_string()]);
}

#[test]
fn known_namespace_is_not_planned() {
    let mut t = target(vec![implemented("Counter", "Counter")], vec![used("Counter")]);
    t.get_existing_namespaces(vec![record("Counter", "9", None, None)]);
    let plan = t.init_self_referential_namespaces();
    assert!(plan.is_empty());
}

#[test]
fn used_but_not_implemented_is_not_planned() {
    let mut t = target(vec![], vec![used("Logger")]);
    t.get_existing_namespaces(vec![record("Logger", "7", Some("other"), Some("Log"))]);
    let plan = t.init_self_referential_namespaces();
    assert!(plan.is_empty());
}

#[test]
fn binding_resolves_to_created_placeholder_id() {
    let mut t = target(vec![implemented("Counter", "Counter")], vec![used("Counter")]);
    t.get_existing_namespaces(vec![]);
    let plan = t.init_self_referential_namespaces();
    assert_eq!(plan, vec!["Counter".to_string()]);
    t.record_created_namespace(record("Counter", "fresh-id", None, None));
    assert!(t.pre_upload().is_ok());
    let uses = t.durable_objects.uses.as_ref().unwrap();
    assert_eq!(uses[0].namespace_id, Some("fresh-id".to_string()));
}

#[test]
fn binding_resolves_to_existing_directory_id() {
    let mut t = target(vec![], vec![used("Logger")]);
    t.get_existing_namespaces(vec![record("Logger", "7", Some("other"), Some("Log"))]);
    assert!(t.init_self_referential_namespaces().is_empty());
    assert!(t.pre_upload().is_ok());
    let uses = t.durable_objects.uses.as_ref().unwrap();
    assert_eq!(uses[0].namespace_id, Some("7".to_string()));
}

#[test]
fn binding_with_explicit_id_is_untouched() {
    let mut t = target(
        vec![],
        vec![UsedBinding {
            namespace_name: Some("Counter".to_string()),
            namespace_id: Some("preset".to_string()),
        }],
    );
    t.get_existing_namespaces(vec![]);
    assert!(t.pre_upload().is_ok());
    let uses = t.durable_objects.uses.as_ref().unwrap();
    assert_eq!(uses[0].namespace_id, Some("preset".to_string()));
}

#[test]
fn unresolvable_binding_fails_closed() {
    let mut t = target(vec![], vec![used("Sessions")]);
    t.get_existing_namespaces(vec![]);
    assert!(t.init_self_referential_namespaces().is_empty());
    let err = t.pre_upload().unwrap_err();
    match &err {
        DeployError::NamespaceNotFound { name } => assert_eq!(name, "Sessions"),
        _ => panic!("expected NamespaceNotFound"),
    }
    assert_eq!(
        err.message(),
        "durable object namespace with name Sessions was not found in your account."
    );
}

#[test]
fn refresh_replaces_prior_content_and_later_records_win() {
    let mut t = target(vec![], vec![]);
    t.get_existing_namespaces(vec![record("Old", "1", None, None)]);
    t.get_existing_namespaces(vec![
        record("Counter", "2", None, None),
        record("Counter", "3", None, None),
    ]);
    assert!(t.get_namespace(&"Old".to_string()).is_none());
    let rec = t.get_namespace(&"Counter".to_string()).unwrap();
    assert_eq!(rec.id, "3");
}
