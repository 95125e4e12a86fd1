//! Interpretation of control-plane responses, error messages, and batch
//! aggregation.

use wrangler::deploy::worker;
use wrangler::deploy::DeployResults;
use wrangler::error::DeployError;
use wrangler::registry::NamespaceRecord;
use wrangler::remote::create_ns_outcome;
use wrangler::remote::list_ns_outcome;
use wrangler::remote::update_ns_outcome;

fn record(name: &str, id: &str) -> NamespaceRecord {
    NamespaceRecord {
        name: name.to_string(),
        id: id.to_string(),
        script: None,
        class: None,
    }
}

#[test]
fn create_failure_carries_status_and_body() {
    let r = create_ns_outcome(403, "quota exceeded".to_string(), None);
    match r.unwrap_err() {
        DeployError::RemoteError { status, body } => {
            assert_eq!(status, 403);
            assert_eq!(body, "quota exceeded");
        }
        _ => panic!("expected RemoteError"),
    }
}

#[test]
fn create_success_without_record_is_malformed() {
    assert!(matches!(
        create_ns_outcome(200, "{}".to_string(), Some(None)),
        Err(DeployError::MalformedResponse)
    ));
    assert!(matches!(
        create_ns_outcome(200, "not json".to_string(), None),
        Err(DeployError::MalformedResponse)
    ));
}

#[test]
fn create_success_yields_the_record() {
    let r = create_ns_outcome(201, String::new(), Some(Some(record("A", "1")))).unwrap();
    assert_eq!(r.name, "A");
    assert_eq!(r.id, "1");
}

#[test]
fn update_outcome_follows_the_status() {
    assert!(update_ns_outcome(200, String::new()).is_ok());
    let err = update_ns_outcome(500, "boom".to_string()).unwrap_err();
    match err {
        DeployError::RemoteError { status, body } => {
            assert_eq!(status, 500);
            assert_eq!(body, "boom");
        }
        _ => panic!("expected RemoteError"),
    }
}

#[test]
fn listing_without_result_is_an_empty_directory() {
    assert!(list_ns_outcome(200, "{}".to_string(), Some(None)).unwrap().is_empty());
    assert!(matches!(
        list_ns_outcome(200, "garbage".to_string(), None),
        Err(DeployError::MalformedResponse)
    ));
    let listing =
        list_ns_outcome(200, String::new(), Some(Some(vec![record("A", "1")]))).unwrap();
    assert_eq!(listing.len(), 1);
    assert_eq!(listing[0].name, "A");
}

#[test]
fn remote_error_message_is_verbatim() {
    let e = DeployError::RemoteError {
        status: 502,
        body: "bad gateway".to_string(),
    };
    assert_eq!(
        e.message(),
        "Something went wrong! Status: 502, Details bad gateway"
    );
}

#[test]
fn malformed_response_message() {
    assert_eq!(
        DeployError::MalformedResponse.message(),
        "malformed response from the control plane"
    );
}

#[test]
fn worker_concatenates_reported_names() {
    let outcomes: Vec<Result<Vec<String>, DeployError>> = vec![
        Ok(vec!["A".to_string(), "B".to_string()]),
        Ok(vec![]),
        Ok(vec!["C".to_string()]),
    ];
    let results = worker(outcomes).unwrap();
    assert!(results.urls.is_empty());
    assert!(results.schedules.is_empty());
    assert_eq!(
        results.durable_object_namespaces,
        vec!["A".to_string(), "B".to_string(), "C".to_string()]
    );
}

#[test]
fn worker_reports_the_first_failure() {
    let outcomes: Vec<Result<Vec<String>, DeployError>> = vec![
        Ok(vec!["A".to_string()]),
        Err(DeployError::RemoteError {
            status: 500,
            body: "first".to_string(),
        }),
        Err(DeployError::MalformedResponse),
    ];
    match worker(outcomes).unwrap_err() {
        DeployError::RemoteError { status, body } => {
            assert_eq!(status, 500);
            assert_eq!(body, "first");
        }
        _ => panic!("expected the first error"),
    }
}

#[test]
fn default_results_are_empty() {
    let r = DeployResults::default();
    assert!(r.urls.is_empty());
    assert!(r.schedules.is_empty());
    assert!(r.durable_object_namespaces.is_empty());
}
