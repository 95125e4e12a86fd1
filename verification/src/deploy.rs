//! Aggregation of a deployment batch.
//!
//! A batch deploys a sequence of targets in order and stops at the first
//! failure.  The caller performs each target's remote work and hands the
//! per-target outcomes back in order; [`worker`] decides what the batch
//! reports: the combined results when every target succeeded, or the
//! first error, after which no further outcome may be acted on.

use vstd::prelude::*;

use crate::durable_objects::DurableObjectsTarget;
use crate::error::DeployError;
use crate::settings::strings_view;

verus! {

/// A target of one deployment batch.  This library models the durable
/// object namespace target; route, zone and schedule deployment are
/// outside collaborators composed around it.
pub enum DeployTarget {
    DurableObjectNamespace(DurableObjectsTarget),
}

/// What a deployment batch reports: the routed URLs, the schedules, and
/// the durable object namespaces that were created or updated.
#[derive(Debug)]
pub struct DeployResults {
    pub urls: Vec<String>,
    pub schedules: Vec<String>,
    pub durable_object_namespaces: Vec<String>,
}

impl Default for DeployResults {
    /// An empty report.
    fn default() -> (r: Self)
        ensures
            r.urls@ == Seq::<String>::empty(),
            r.schedules@ == Seq::<String>::empty(),
            r.durable_object_namespaces@ == Seq::<String>::empty(),
    {
        let r = DeployResults {
            urls: Vec::new(),
            schedules: Vec::new(),
            durable_object_namespaces: Vec::new(),
        };
        proof {
            assert(r.urls@ =~= Seq::<String>::empty());
            assert(r.schedules@ =~= Seq::<String>::empty());
            assert(r.durable_object_namespaces@ =~= Seq::<String>::empty());
        }
        r
    }
}

/// The namespace names the outcomes report, concatenated in order.
pub open spec fn all_reported_names(outcomes: Seq<Result<Vec<String>, DeployError>>) -> Seq<
    Seq<char>,
>
    decreases outcomes.len(),
{
    if outcomes.len() == 0 {
        Seq::empty()
    } else {
        all_reported_names(outcomes.drop_last()) + match outcomes.last() {
            Ok(names) => strings_view(names@),
            Err(_) => Seq::empty(),
        }
    }
}

/// The position of the first failed outcome, or the length when all
/// succeeded.
pub open spec fn first_failure(outcomes: Seq<Result<Vec<String>, DeployError>>) -> int
    decreases outcomes.len(),
{
    if outcomes.len() == 0 {
        0
    } else if outcomes[0] is Err {
        0
    } else {
        1 + first_failure(outcomes.drop_first())
    }
}

/// What [`first_failure`] points at: every outcome before it succeeded,
/// and the one at it (if any) failed.
pub proof fn lemma_first_failure(outcomes: Seq<Result<Vec<String>, DeployError>>)
    ensures
        0 <= first_failure(outcomes) <= outcomes.len(),
        forall|j: int| 0 <= j < first_failure(outcomes) ==> outcomes[j] is Ok,
        first_failure(outcomes) < outcomes.len() ==> outcomes[first_failure(outcomes)] is Err,
    decreases outcomes.len(),
{
    if outcomes.len() > 0 && outcomes[0] is Ok {
        lemma_first_failure(outcomes.drop_first());
        assert forall|j: int| 0 <= j < first_failure(outcomes) implies outcomes[j] is Ok by {
            if j > 0 {
                assert(outcomes.drop_first()[j - 1] == outcomes[j]);
                assert(outcomes.drop_first()[j - 1] is Ok);
            }
        };
    }
}

/// Fold the per-target outcomes of one batch, in order, into what the
/// batch reports: the concatenated namespace names when every target
/// succeeded, or the first error.  The caller must stop performing remote
/// work for the targets after a failed one; outcomes after the first
/// failure are not consulted.
#[verifier::loop_isolation(false)]
pub fn worker(outcomes: Vec<Result<Vec<String>, DeployError>>) -> (r: Result<
    DeployResults,
    DeployError,
>)
    ensures
        ({
            let ov = outcomes@;
            let f = first_failure(ov);
            &&& (r is Ok <==> f == ov.len())
            &&& r is Ok ==> r->Ok_0.urls@ == Seq::<String>::empty() && r->Ok_0.schedules@
                == Seq::<String>::empty() && strings_view(r->Ok_0.durable_object_namespaces@)
                == all_reported_names(ov)
            &&& r is Err ==> r->Err_0 == ov[f]->Err_0
        }),
{
    let ghost ov = outcomes@;
    let mut rest = outcomes;
    let total: usize = rest.len();
    let mut results = DeployResults::default();
    let mut done: usize = 0;
    proof {
        lemma_first_failure(ov);
    }
    while rest.len() > 0
        invariant
            ov.len() == total as int,
            done + rest@.len() == ov.len(),
            rest@ == ov.skip(done as int),
            forall|j: int| 0 <= j < done ==> ov[j] is Ok,
            results.urls@ == Seq::<String>::empty(),
            results.schedules@ == Seq::<String>::empty(),
            strings_view(results.durable_object_namespaces@) == all_reported_names(
                ov.take(done as int),
            ),
        decreases rest@.len(),
    {
        proof {
            assert(ov.skip(done as int)[0] == ov[done as int]);
        }
        let outcome = rest.remove(0);
        let ghost oc = outcome;
        proof {
            assert(rest@ =~= ov.skip(done as int + 1));
            assert(oc == ov[done as int]);
        }
        match outcome {
            Ok(mut names) => {
                let ghost nv = names@;
                let ghost before = results.durable_object_namespaces@;
                results.durable_object_namespaces.append(&mut names);
                proof {
                    assert(strings_view(before + nv) =~= strings_view(before) + strings_view(nv));
                    let t1 = ov.take(done as int + 1);
                    assert(t1.drop_last() =~= ov.take(done as int));
                    assert(t1.last() == ov[done as int]);
                    assert(strings_view(results.durable_object_namespaces@)
                        == all_reported_names(t1));
                }
                done = done + 1;
            }
            Err(e) => {
                proof {
                    lemma_first_failure(ov);
                    let f = first_failure(ov);
                    assert(!(f > done)) by {
                        if f > done {
                            assert(ov[done as int] is Ok);
                        }
                    };
                    assert(!(f < done)) by {
                        if f < done {
                            assert(ov[f] is Ok);
                        }
                    };
                    assert(f == done);
                    assert(oc is Err && oc->Err_0 == e);
                }
                return Err(e);
            }
        }
    }
    proof {
        lemma_first_failure(ov);
        let f = first_failure(ov);
        if f < ov.len() {
            assert(ov[f] is Ok);
            assert(false);
        }
        assert(ov.take(done as int) =~= ov);
    }
    Ok(results)
}

} // verus!
