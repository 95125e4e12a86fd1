//! The post-upload phase: bucket classification and idempotence.

use wrangler::durable_objects::touched_names;
use wrangler::durable_objects::DurableObjectsTarget;
use wrangler::durable_objects::NamespaceAction;
use wrangler::registry::NamespaceRecord;
use wrangler::settings::DurableObjectNamespaceImpl;
use wrangler::settings::DurableObjects;
use wrangler::settings::UsedBinding;

fn record(name: &str, id: &str, script: Option<&str>, class: Option<&str>) -> NamespaceRecord {
    NamespaceRecord {
        name: name.to_string(),
        id: id.to_string(),
        script: script.map(|s| s.to_string()),
        class: class.map(|s| s.to_string()),
    }
}

fn implemented(name: &str, class: &str) -> DurableObjectNamespaceImpl {
    DurableObjectNamespaceImpl {
        namespace_name: name.to_string(),
        class_name: class.to_string(),
    }
}

fn target(script: &str, implements: Vec<DurableObjectNamespaceImpl>) -> DurableObjectsTarget {
    DurableObjectsTarget::new(
        "acct".to_string(),
        script.to_string(),
        DurableObjects {
            implements: Some(implements),
            uses: Some(vec![]),
        },
    )
}

/// Perform a finalizer plan against an in-memory directory: what the next
/// refresh would report if every remote call succeeded.
fn perform(plan: &[NamespaceAction], script: &str, directory: &mut Vec<NamespaceRecord>) {
    let mut fresh = 100;
    for action in plan {
        match action {
            NamespaceAction::Create { namespace_name, class_name } => {
                directory.push(record(
                    namespace_name,
                    &format!("id-{}", fresh),
                    Some(script),
                    Some(class_name),
                ));
                fresh += 1;
            }
            NamespaceAction::Update { namespace_id, namespace_name, class_name } => {
                directory.retain(|r| &r.name != namespace_name);
                directory.push(record(
                    namespace_name,
                    namespace_id,
                    Some(script),
                    Some(class_name),
                ));
            }
        }
    }
}

#[test]
fn absent_namespace_is_created() {
    let mut t = target("new", vec![implemented("A", "X")]);
    t.get_existing_namespaces(vec![]);
    let plan = t.deploy();
    assert_eq!(plan.len(), 1);
    match &plan[0] {
        NamespaceAction::Create { namespace_name, class_name } => {
            assert_eq!(namespace_name, "A");
            assert_eq!(class_name, "X");
        }
        _ => panic!("expected a create"),
    }
}

#[test]
fn mismatched_namespace_is_updated_by_id() {
    let mut t = target("new", vec![implemented("A", "Y")]);
    t.get_existing_namespaces(vec![record("A", "1", Some("old"), Some("X"))]);
    let plan = t.deploy();
    assert_eq!(plan.len(), 1);
    match &plan[0] {
        NamespaceAction::Update { namespace_id, namespace_name, class_name } => {
            assert_eq!(namespace_id, "1");
            assert_eq!(namespace_name, "A");
            assert_eq!(class_name, "Y");
        }
        _ => panic!("expected an update"),
    }
}

#[test]
fn matched_namespace_needs_no_call() {
    let mut t = target("new", vec![implemented("A", "X")]);
    t.get_existing_namespaces(vec![record("A", "1", Some("new"), Some("X"))]);
    assert!(t.deploy().is_empty());
}

#[test]
fn placeholder_from_cycle_breaking_is_updated() {
    let mut t = target("new", vec![implemented("Counter", "Counter")]);
    t.get_existing_namespaces(vec![]);
    t.record_created_namespace(record("Counter", "fresh-id", None, None));
    let plan = t.deploy();
    assert_eq!(plan.len(), 1);
    match &plan[0] {
        NamespaceAction::Update { namespace_id, namespace_name, class_name } => {
            assert_eq!(namespace_id, "fresh-id");
            assert_eq!(namespace_name, "Counter");
            assert_eq!(class_name, "Counter");
        }
        _ => panic!("expected an update"),
    }
}

#[test]
fn creates_come_before_updates_in_declaration_order() {
    let mut t = target(
        "new",
        vec![
            implemented("Stale", "S"),
            implemented("Fresh1", "F1"),
            implemented("Fresh2", "F2"),
        ],
    );
    t.get_existing_namespaces(vec![record("Stale", "4", Some("old"), Some("S"))]);
    let plan = t.deploy();
    assert_eq!(plan.len(), 3);
    let names: Vec<&str> = plan
        .iter()
        .map(|a| match a {
            NamespaceAction::Create { namespace_name, .. } => namespace_name.as_str(),
            NamespaceAction::Update { namespace_name, .. } => namespace_name.as_str(),
        })
        .collect();
    assert_eq!(names, vec!["Fresh1", "Fresh2", "Stale"]);
    assert!(matches!(plan[0], NamespaceAction::Create { .. }));
    assert!(matches!(plan[1], NamespaceAction::Create { .. }));
    assert!(matches!(plan[2], NamespaceAction::Update { .. }));
}

#[test]
fn second_finalize_run_owes_nothing() {
    let implements = vec![implemented("A", "X"), implemented("B", "Y")];
    let mut directory = vec![record("A", "1", Some("old"), Some("X"))];

    let mut first = target("new", implements.clone());
    first.get_existing_namespaces(directory.clone());
    let plan = first.deploy();
    assert_eq!(plan.len(), 2);
    perform(&plan, "new", &mut directory);

    let mut second = target("new", implements);
    second.get_existing_namespaces(directory);
    assert!(second.deploy().is_empty());
}

#[test]
fn end_to_end_self_referential_deployment() {
    let mut t = DurableObjectsTarget::new(
        "acct".to_string(),
        "counter-script".to_string(),
        DurableObjects {
            implements: Some(vec![implemented("Counter", "Counter")]),
            uses: Some(vec![UsedBinding {
                namespace_name: Some("Counter".to_string()),
                namespace_id: None,
            }]),
        },
    );
    t.get_existing_namespaces(vec![]);
    let to_create = t.init_self_referential_namespaces();
    assert_eq!(to_create, vec!["Counter".to_string()]);
    t.record_created_namespace(record("Counter", "id-0", None, None));
    assert!(t.pre_upload().is_ok());
    assert_eq!(
        t.durable_objects.uses.as_ref().unwrap()[0].namespace_id,
        Some("id-0".to_string())
    );
    let plan = t.deploy();
    assert_eq!(plan.len(), 1);
    match &plan[0] {
        NamespaceAction::Update { namespace_id, class_name, .. } => {
            assert_eq!(namespace_id, "id-0");
            assert_eq!(class_name, "Counter");
        }
        _ => panic!("expected an update of the placeholder"),
    }
    assert_eq!(touched_names(&plan), vec!["Counter".to_string()]);
}
