//! Interpretation of control-plane responses.
//!
//! The caller performs the HTTP call and the parsing of the body; the
//! functions here decide, from the status code, the verbatim body and the
//! parse outcome, what the call yielded.  A non-success status surfaces
//! with status and body verbatim; a success status whose body does not
//! have the expected shape is malformed and fatal.

use vstd::prelude::*;

use crate::error::DeployError;
use crate::error::DeployErrorView;
use crate::registry::NamespaceRecord;

verus! {

/// Whether a status code counts as success.
pub open spec fn status_success(status: u16) -> bool {
    200 <= status < 300
}

/// Outcome of a namespace create call.  `parsed` is the record the
/// response body carried: `None` when the body did not parse, `Some(None)`
/// when it parsed but carried no record despite the success status.
pub fn create_ns_outcome(status: u16, body: String, parsed: Option<Option<NamespaceRecord>>) -> (r:
    Result<NamespaceRecord, DeployError>)
    ensures
        !status_success(status) ==> r is Err && r->Err_0@ == (DeployErrorView::RemoteError {
            status,
            body: body@,
        }),
        status_success(status) ==> match parsed {
            Some(Some(rec)) => r is Ok && r->Ok_0 == rec,
            _ => r is Err && r->Err_0 is MalformedResponse,
        },
{
    if !(200 <= status && status < 300) {
        return Err(DeployError::RemoteError { status, body });
    }
    match parsed {
        Some(Some(rec)) => Ok(rec),
        _ => Err(DeployError::MalformedResponse),
    }
}

/// Outcome of a namespace update call, which reports success or failure
/// only.
pub fn update_ns_outcome(status: u16, body: String) -> (r: Result<(), DeployError>)
    ensures
        r is Ok <==> status_success(status),
        !status_success(status) ==> r->Err_0@ == (DeployErrorView::RemoteError {
            status,
            body: body@,
        }),
{
    if 200 <= status && status < 300 {
        Ok(())
    } else {
        Err(DeployError::RemoteError { status, body })
    }
}

/// Outcome of a directory listing call.  `parsed` is the record list the
/// response body carried: `None` when the body did not parse, `Some(None)`
/// when it parsed and listed nothing, which means an empty directory.
pub fn list_ns_outcome(
    status: u16,
    body: String,
    parsed: Option<Option<Vec<NamespaceRecord>>>,
) -> (r: Result<Vec<NamespaceRecord>, DeployError>)
    ensures
        !status_success(status) ==> r is Err && r->Err_0@ == (DeployErrorView::RemoteError {
            status,
            body: body@,
        }),
        status_success(status) ==> match parsed {
            Some(Some(listing)) => r is Ok && r->Ok_0 == listing,
            Some(None) => r is Ok && r->Ok_0@ == Seq::<NamespaceRecord>::empty(),
            None => r is Err && r->Err_0 is MalformedResponse,
        },
{
    if !(200 <= status && status < 300) {
        return Err(DeployError::RemoteError { status, body });
    }
    match parsed {
        Some(Some(listing)) => Ok(listing),
        Some(None) => {
            let empty: Vec<NamespaceRecord> = Vec::new();
            proof {
                assert(empty@ =~= Seq::<NamespaceRecord>::empty());
            }
            Ok(empty)
        }
        None => Err(DeployError::MalformedResponse),
    }
}

} // verus!
