//! The reconciliation laws: what the phases guarantee in combination.
//!
//! Each theorem here is stated over the same specification functions the
//! executable phases are proved against, so what it says of the
//! specifications holds of the code.  The hypotheses about the records a
//! create call returns say only that the remote side answers a create for
//! a name with a record of that name.

use vstd::prelude::*;

use crate::durable_objects::NamespaceActionView;
use crate::durable_objects::action_name;
use crate::durable_objects::binding_needs_resolution;
use crate::durable_objects::binding_resolvable;
use crate::durable_objects::create_plan;
use crate::durable_objects::deploy_plan;
use crate::durable_objects::first_unresolvable;
use crate::durable_objects::impl_matched;
use crate::durable_objects::lemma_first_unresolvable;
use crate::durable_objects::resolved_binding;
use crate::durable_objects::self_referential_plan;
use crate::durable_objects::update_plan;
use crate::registry::NamespaceRecordView;
use crate::settings::DurableObjectNamespaceImplView;
use crate::settings::UsedBindingView;
use crate::settings::declares_impl;
use crate::settings::uses_name;

verus! {

/// The registry after records have been inserted one by one, in order,
/// each keyed by its name.
pub open spec fn insert_records(
    reg: Map<Seq<char>, NamespaceRecordView>,
    recs: Seq<NamespaceRecordView>,
) -> Map<Seq<char>, NamespaceRecordView>
    decreases recs.len(),
{
    if recs.len() == 0 {
        reg
    } else {
        insert_records(reg, recs.drop_last()).insert(recs.last().name, recs.last())
    }
}

/// A name no inserted record carries keeps its prior entry (or absence).
pub proof fn lemma_insert_records_untouched(
    reg: Map<Seq<char>, NamespaceRecordView>,
    recs: Seq<NamespaceRecordView>,
    n: Seq<char>,
)
    requires
        forall|k: int| 0 <= k < recs.len() ==> recs[k].name != n,
    ensures
        insert_records(reg, recs).contains_key(n) == reg.contains_key(n),
        reg.contains_key(n) ==> insert_records(reg, recs)[n] == reg[n],
    decreases recs.len(),
{
    if recs.len() > 0 {
        assert(forall|k: int| 0 <= k < recs.len() - 1 ==> recs.drop_last()[k] == recs[k]);
        lemma_insert_records_untouched(reg, recs.drop_last(), n);
    }
}

/// The last inserted record of a name is what the registry then holds.
pub proof fn lemma_insert_records_at(
    reg: Map<Seq<char>, NamespaceRecordView>,
    recs: Seq<NamespaceRecordView>,
    i: int,
)
    requires
        0 <= i < recs.len(),
        forall|j: int| i < j < recs.len() ==> recs[j].name != recs[i].name,
    ensures
        insert_records(reg, recs).contains_key(recs[i].name),
        insert_records(reg, recs)[recs[i].name] == recs[i],
    decreases recs.len(),
{
    if i < recs.len() - 1 {
        assert(recs.last().name != recs[i].name);
        assert(forall|j: int| 0 <= j < recs.len() - 1 ==> recs.drop_last()[j] == recs[j]);
        lemma_insert_records_at(reg, recs.drop_last(), i);
    }
}

/// Every name the cycle-breaker plans is used, implemented and unknown to
/// the registry.
pub proof fn lemma_self_ref_plan_sound(
    uses: Seq<UsedBindingView>,
    impls: Seq<DurableObjectNamespaceImplView>,
    reg: Map<Seq<char>, NamespaceRecordView>,
    k: int,
)
    requires
        0 <= k < self_referential_plan(uses, impls, reg).len(),
    ensures
        uses_name(uses, self_referential_plan(uses, impls, reg)[k]),
        declares_impl(impls, self_referential_plan(uses, impls, reg)[k]),
        !reg.contains_key(self_referential_plan(uses, impls, reg)[k]),
    decreases uses.len(),
{
    let plan = self_referential_plan(uses, impls, reg);
    let prefix = self_referential_plan(uses.drop_last(), impls, reg);
    assert(uses.len() > 0);
    assert(forall|x: int| 0 <= x < uses.len() - 1 ==> uses.drop_last()[x] == uses[x]);
    if k < prefix.len() {
        assert(plan[k] == prefix[k]);
        lemma_self_ref_plan_sound(uses.drop_last(), impls, reg, k);
        let i = choose|i: int|
            0 <= i < uses.drop_last().len() && uses.drop_last()[i].namespace_name == Some(prefix[k]);
        assert(uses[i].namespace_name == Some(plan[k]));
    } else {
        assert(uses.last().namespace_name == Some(plan[k]));
        assert(uses[uses.len() - 1].namespace_name == Some(plan[k]));
    }
}

/// Every name used, implemented and unknown to the registry is planned.
pub proof fn lemma_self_ref_plan_complete(
    uses: Seq<UsedBindingView>,
    impls: Seq<DurableObjectNamespaceImplView>,
    reg: Map<Seq<char>, NamespaceRecordView>,
    n: Seq<char>,
)
    requires
        uses_name(uses, n),
        declares_impl(impls, n),
        !reg.contains_key(n),
    ensures
        self_referential_plan(uses, impls, reg).contains(n),
    decreases uses.len(),
{
    let plan = self_referential_plan(uses, impls, reg);
    let prefix = self_referential_plan(uses.drop_last(), impls, reg);
    assert(uses.len() > 0);
    assert(forall|x: int| 0 <= x < uses.len() - 1 ==> uses.drop_last()[x] == uses[x]);
    let i = choose|i: int| 0 <= i < uses.len() && uses[i].namespace_name == Some(n);
    if i < uses.len() - 1 {
        assert(uses.drop_last()[i].namespace_name == Some(n));
        assert(uses_name(uses.drop_last(), n));
        lemma_self_ref_plan_complete(uses.drop_last(), impls, reg, n);
        let k = choose|k: int| 0 <= k < prefix.len() && prefix[k] == n;
        assert(plan[k] == n);
    } else {
        assert(uses.last().namespace_name == Some(n));
        if prefix.contains(n) {
            let k = choose|k: int| 0 <= k < prefix.len() && prefix[k] == n;
            assert(plan[k] == n);
        } else {
            assert(plan.last() == n);
        }
    }
}

/// The cycle-breaker plans each name at most once.
pub proof fn lemma_self_ref_plan_distinct(
    uses: Seq<UsedBindingView>,
    impls: Seq<DurableObjectNamespaceImplView>,
    reg: Map<Seq<char>, NamespaceRecordView>,
)
    ensures
        forall|j: int, k: int|
            0 <= j < k < self_referential_plan(uses, impls, reg).len()
                ==> self_referential_plan(uses, impls, reg)[j] != self_referential_plan(
                uses,
                impls,
                reg,
            )[k],
    decreases uses.len(),
{
    if uses.len() > 0 {
        lemma_self_ref_plan_distinct(uses.drop_last(), impls, reg);
        let plan = self_referential_plan(uses, impls, reg);
        let prefix = self_referential_plan(uses.drop_last(), impls, reg);
        assert forall|j: int, k: int| 0 <= j < k < plan.len() implies plan[j] != plan[k] by {
            if k < prefix.len() {
                assert(plan[j] == prefix[j] && plan[k] == prefix[k]);
            } else {
                assert(plan[j] == prefix[j]);
                assert(!prefix.contains(plan[k]));
            }
        };
    }
}

/// Cycle-breaking necessity: a namespace that the unit both implements
/// and uses and that the directory does not hold is planned for exactly
/// one placeholder create; once the created records are inserted, the
/// registry holds under that name exactly the record that create
/// returned, and a binding of that name resolves to that record's
/// identifier.  Returns the position of the one create.
pub proof fn theorem_cycle_breaking_necessity(
    uses: Seq<UsedBindingView>,
    impls: Seq<DurableObjectNamespaceImplView>,
    reg: Map<Seq<char>, NamespaceRecordView>,
    created: Seq<NamespaceRecordView>,
    n: Seq<char>,
) -> (k: int)
    requires
        uses_name(uses, n),
        declares_impl(impls, n),
        !reg.contains_key(n),
        created.len() == self_referential_plan(uses, impls, reg).len(),
        forall|j: int|
            0 <= j < created.len() ==> created[j].name == self_referential_plan(uses, impls, reg)[j],
    ensures
        0 <= k < self_referential_plan(uses, impls, reg).len(),
        self_referential_plan(uses, impls, reg)[k] == n,
        forall|j: int|
            0 <= j < self_referential_plan(uses, impls, reg).len() && j != k
                ==> self_referential_plan(uses, impls, reg)[j] != n,
        insert_records(reg, created).contains_key(n),
        insert_records(reg, created)[n] == created[k],
        forall|b: UsedBindingView|
            binding_needs_resolution(b) && b.namespace_name == Some(n) ==> resolved_binding(
                b,
                insert_records(reg, created),
            ) == (UsedBindingView { namespace_name: Some(n), namespace_id: Some(created[k].id) }),
{
    let plan = self_referential_plan(uses, impls, reg);
    lemma_self_ref_plan_complete(uses, impls, reg, n);
    lemma_self_ref_plan_distinct(uses, impls, reg);
    let k = choose|k: int| 0 <= k < plan.len() && plan[k] == n;
    assert forall|j: int| k < j < created.len() implies created[j].name != created[k].name by {
        assert(created[j].name == plan[j]);
        assert(created[k].name == plan[k]);
        assert(plan[j] != plan[k]);
    };
    lemma_insert_records_at(reg, created, k);
    k
}

/// No spurious creation: a used namespace the unit does not implement and
/// that the directory already holds is never planned for creation, and
/// its binding resolves to the identifier the directory records.
pub proof fn theorem_no_spurious_creation(
    uses: Seq<UsedBindingView>,
    impls: Seq<DurableObjectNamespaceImplView>,
    reg: Map<Seq<char>, NamespaceRecordView>,
    created: Seq<NamespaceRecordView>,
    n: Seq<char>,
)
    requires
        uses_name(uses, n),
        !declares_impl(impls, n),
        reg.contains_key(n),
        created.len() == self_referential_plan(uses, impls, reg).len(),
        forall|j: int|
            0 <= j < created.len() ==> created[j].name == self_referential_plan(uses, impls, reg)[j],
    ensures
        forall|k: int|
            0 <= k < self_referential_plan(uses, impls, reg).len()
                ==> self_referential_plan(uses, impls, reg)[k] != n,
        insert_records(reg, created).contains_key(n),
        insert_records(reg, created)[n] == reg[n],
        forall|b: UsedBindingView|
            binding_needs_resolution(b) && b.namespace_name == Some(n) ==> resolved_binding(
                b,
                insert_records(reg, created),
            ) == (UsedBindingView { namespace_name: Some(n), namespace_id: Some(reg[n].id) }),
{
    let plan = self_referential_plan(uses, impls, reg);
    assert forall|k: int| 0 <= k < plan.len() implies plan[k] != n by {
        lemma_self_ref_plan_sound(uses, impls, reg, k);
    };
    assert forall|k: int| 0 <= k < created.len() implies created[k].name != n by {
        assert(created[k].name == plan[k]);
    };
    lemma_insert_records_untouched(reg, created, n);
}

/// Unresolvable bindings fail closed: a binding that names a namespace
/// known neither to the directory nor to the implemented declarations is
/// still unresolvable after cycle-breaking, so the pre-upload phase fails
/// rather than proceeding to upload.
pub proof fn theorem_unresolvable_fails_closed(
    uses: Seq<UsedBindingView>,
    impls: Seq<DurableObjectNamespaceImplView>,
    reg: Map<Seq<char>, NamespaceRecordView>,
    created: Seq<NamespaceRecordView>,
    i: int,
)
    requires
        0 <= i < uses.len(),
        binding_needs_resolution(uses[i]),
        !reg.contains_key(uses[i].namespace_name->0),
        !declares_impl(impls, uses[i].namespace_name->0),
        created.len() == self_referential_plan(uses, impls, reg).len(),
        forall|j: int|
            0 <= j < created.len() ==> created[j].name == self_referential_plan(uses, impls, reg)[j],
    ensures
        !insert_records(reg, created).contains_key(uses[i].namespace_name->0),
        first_unresolvable(uses, insert_records(reg, created)) < uses.len(),
{
    let n = uses[i].namespace_name->0;
    let plan = self_referential_plan(uses, impls, reg);
    assert forall|k: int| 0 <= k < plan.len() implies plan[k] != n by {
        lemma_self_ref_plan_sound(uses, impls, reg, k);
    };
    assert forall|k: int| 0 <= k < created.len() implies created[k].name != n by {
        assert(created[k].name == plan[k]);
    };
    lemma_insert_records_untouched(reg, created, n);
    let reg2 = insert_records(reg, created);
    lemma_first_unresolvable(uses, reg2);
    if first_unresolvable(uses, reg2) == uses.len() {
        assert(binding_resolvable(uses[i], reg2));
        assert(false);
    }
}

/// The class an action attaches.
pub open spec fn action_class(a: NamespaceActionView) -> Seq<char> {
    match a {
        NamespaceActionView::Create { class_name, .. } => class_name,
        NamespaceActionView::Update { class_name, .. } => class_name,
    }
}

/// No two declarations implement the same name.
pub open spec fn impl_names_distinct(impls: Seq<DurableObjectNamespaceImplView>) -> bool {
    forall|i: int, j: int|
        0 <= i < j < impls.len() ==> impls[i].namespace_name != impls[j].namespace_name
}

/// Every declared namespace is present in the registry and matched.
pub open spec fn all_finalized(
    impls: Seq<DurableObjectNamespaceImplView>,
    reg: Map<Seq<char>, NamespaceRecordView>,
    script: Seq<char>,
) -> bool {
    forall|i: int| 0 <= i < impls.len() ==> impl_matched(impls[i], reg, script)
}

/// The registry as the next refresh would see it after one finalizer
/// action succeeded: the namespace carries the deployed script and the
/// declared class; `id` is the identifier the remote side assigned in
/// case the action creates.
pub open spec fn apply_action(
    reg: Map<Seq<char>, NamespaceRecordView>,
    a: NamespaceActionView,
    script: Seq<char>,
    id: Seq<char>,
) -> Map<Seq<char>, NamespaceRecordView> {
    match a {
        NamespaceActionView::Create { namespace_name, class_name } => reg.insert(
            namespace_name,
            NamespaceRecordView {
                name: namespace_name,
                id: id,
                script: Some(script),
                class: Some(class_name),
            },
        ),
        NamespaceActionView::Update { namespace_id, namespace_name, class_name } => reg.insert(
            namespace_name,
            NamespaceRecordView {
                name: namespace_name,
                id: namespace_id,
                script: Some(script),
                class: Some(class_name),
            },
        ),
    }
}

/// The registry after a whole plan succeeded, `ids` giving the remote
/// identifiers the creates received, position by position.
pub open spec fn apply_actions(
    reg: Map<Seq<char>, NamespaceRecordView>,
    actions: Seq<NamespaceActionView>,
    script: Seq<char>,
    ids: Seq<Seq<char>>,
) -> Map<Seq<char>, NamespaceRecordView>
    decreases actions.len(),
{
    if actions.len() == 0 {
        reg
    } else {
        apply_action(
            apply_actions(reg, actions.drop_last(), script, ids.drop_last()),
            actions.last(),
            script,
            ids.last(),
        )
    }
}

/// How many actions of a plan touch a given name.
pub open spec fn name_count(s: Seq<NamespaceActionView>, n: Seq<char>) -> nat
    decreases s.len(),
{
    if s.len() == 0 {
        0
    } else {
        name_count(s.drop_last(), n) + (if action_name(s.last()) == n {
            1nat
        } else {
            0nat
        })
    }
}

pub proof fn lemma_name_count_member(s: Seq<NamespaceActionView>, n: Seq<char>, k: int)
    requires
        0 <= k < s.len(),
        action_name(s[k]) == n,
    ensures
        name_count(s, n) >= 1,
    decreases s.len(),
{
    if k < s.len() - 1 {
        assert(s.drop_last()[k] == s[k]);
        lemma_name_count_member(s.drop_last(), n, k);
    }
}

pub proof fn lemma_name_count_unique(s: Seq<NamespaceActionView>, n: Seq<char>, j: int, k: int)
    requires
        0 <= j < k < s.len(),
        action_name(s[j]) == n,
        action_name(s[k]) == n,
    ensures
        name_count(s, n) >= 2,
    decreases s.len(),
{
    assert(forall|x: int| 0 <= x < s.len() - 1 ==> s.drop_last()[x] == s[x]);
    if k == s.len() - 1 {
        lemma_name_count_member(s.drop_last(), n, j);
    } else {
        lemma_name_count_unique(s.drop_last(), n, j, k);
    }
}

pub proof fn lemma_name_count_add(a: Seq<NamespaceActionView>, b: Seq<NamespaceActionView>, n: Seq<char>)
    ensures
        name_count(a + b, n) == name_count(a, n) + name_count(b, n),
    decreases b.len(),
{
    if b.len() == 0 {
        assert(a + b =~= a);
    } else {
        assert((a + b).drop_last() =~= a + b.drop_last());
        assert((a + b).last() == b.last());
        lemma_name_count_add(a, b.drop_last(), n);
    }
}

/// With distinct declared names, the create bucket holds exactly one
/// action for an absent declared name, and none otherwise.
pub proof fn lemma_create_plan_count(
    impls: Seq<DurableObjectNamespaceImplView>,
    reg: Map<Seq<char>, NamespaceRecordView>,
    n: Seq<char>,
)
    requires
        impl_names_distinct(impls),
    ensures
        name_count(create_plan(impls, reg), n) == if declares_impl(impls, n)
            && !reg.contains_key(n) {
            1nat
        } else {
            0nat
        },
    decreases impls.len(),
{
    if impls.len() == 0 {
    } else {
        let pi = impls.drop_last();
        assert(forall|x: int| 0 <= x < impls.len() - 1 ==> pi[x] == impls[x]);
        lemma_create_plan_count(pi, reg, n);
        let last = impls.last();
        let prefix = create_plan(pi, reg);
        if !reg.contains_key(last.namespace_name) {
            let act = NamespaceActionView::Create {
                namespace_name: last.namespace_name,
                class_name: last.class_name,
            };
            assert(prefix.push(act).drop_last() =~= prefix);
            assert(prefix.push(act).last() == act);
        }
        if last.namespace_name == n {
            assert(!declares_impl(pi, n)) by {
                if declares_impl(pi, n) {
                    let i = choose|i: int| 0 <= i < pi.len() && pi[i].namespace_name == n;
                    assert(impls[i].namespace_name == impls[impls.len() - 1].namespace_name);
                }
            };
            assert(impls[impls.len() - 1].namespace_name == n);
            assert(declares_impl(impls, n));
        } else {
            assert(declares_impl(impls, n) == declares_impl(pi, n)) by {
                if declares_impl(impls, n) {
                    let i = choose|i: int| 0 <= i < impls.len() && impls[i].namespace_name == n;
                    assert(pi[i].namespace_name == n);
                }
                if declares_impl(pi, n) {
                    let i = choose|i: int| 0 <= i < pi.len() && pi[i].namespace_name == n;
                    assert(impls[i].namespace_name == n);
                }
            };
        }
    }
}

/// With distinct declared names, the update bucket holds exactly one
/// action for a present-but-mismatched declared name, and none otherwise.
pub proof fn lemma_update_plan_count(
    impls: Seq<DurableObjectNamespaceImplView>,
    reg: Map<Seq<char>, NamespaceRecordView>,
    script: Seq<char>,
    n: Seq<char>,
)
    requires
        impl_names_distinct(impls),
    ensures
        name_count(update_plan(impls, reg, script), n) == if exists|i: int|
            0 <= i < impls.len() && impls[i].namespace_name == n && reg.contains_key(n)
                && !impl_matched(impls[i], reg, script) {
            1nat
        } else {
            0nat
        },
    decreases impls.len(),
{
    let stale = |s: Seq<DurableObjectNamespaceImplView>|
        exists|i: int|
            0 <= i < s.len() && s[i].namespace_name == n && reg.contains_key(n) && !impl_matched(
                s[i],
                reg,
                script,
            );
    if impls.len() == 0 {
    } else {
        let pi = impls.drop_last();
        assert(forall|x: int| 0 <= x < impls.len() - 1 ==> pi[x] == impls[x]);
        lemma_update_plan_count(pi, reg, script, n);
        let last = impls.last();
        let prefix = update_plan(pi, reg, script);
        if reg.contains_key(last.namespace_name) && !impl_matched(last, reg, script) {
            let act = NamespaceActionView::Update {
                namespace_id: reg[last.namespace_name].id,
                namespace_name: last.namespace_name,
                class_name: last.class_name,
            };
            assert(prefix.push(act).drop_last() =~= prefix);
            assert(prefix.push(act).last() == act);
        }
        if last.namespace_name == n {
            assert(!stale(pi)) by {
                if stale(pi) {
                    let i = choose|i: int|
                        0 <= i < pi.len() && pi[i].namespace_name == n && reg.contains_key(n)
                            && !impl_matched(pi[i], reg, script);
                    assert(impls[i].namespace_name == impls[impls.len() - 1].namespace_name);
                }
            };
            if reg.contains_key(n) && !impl_matched(last, reg, script) {
                assert(impls[impls.len() - 1].namespace_name == n);
                assert(stale(impls));
            } else {
                assert(!stale(impls)) by {
                    if stale(impls) {
                        let i = choose|i: int|
                            0 <= i < impls.len() && impls[i].namespace_name == n
                                && reg.contains_key(n) && !impl_matched(impls[i], reg, script);
                        if i < impls.len() - 1 {
                            assert(impls[i].namespace_name == impls[impls.len()
                                - 1].namespace_name);
                        }
                    }
                };
            }
        } else {
            assert(stale(impls) == stale(pi)) by {
                if stale(impls) {
                    let i = choose|i: int|
                        0 <= i < impls.len() && impls[i].namespace_name == n && reg.contains_key(n)
                            && !impl_matched(impls[i], reg, script);
                    assert(pi[i].namespace_name == n && !impl_matched(pi[i], reg, script));
                }
                if stale(pi) {
                    let i = choose|i: int|
                        0 <= i < pi.len() && pi[i].namespace_name == n && reg.contains_key(n)
                            && !impl_matched(pi[i], reg, script);
                    assert(impls[i].namespace_name == n && !impl_matched(impls[i], reg, script));
                }
            };
        }
    }
}

/// An absent declared name's create, with its declared class, is in the
/// create bucket.
pub proof fn lemma_create_plan_member(
    impls: Seq<DurableObjectNamespaceImplView>,
    reg: Map<Seq<char>, NamespaceRecordView>,
    i: int,
)
    requires
        0 <= i < impls.len(),
        !reg.contains_key(impls[i].namespace_name),
    ensures
        create_plan(impls, reg).contains(
            NamespaceActionView::Create {
                namespace_name: impls[i].namespace_name,
                class_name: impls[i].class_name,
            },
        ),
    decreases impls.len(),
{
    let act = NamespaceActionView::Create {
        namespace_name: impls[i].namespace_name,
        class_name: impls[i].class_name,
    };
    let plan = create_plan(impls, reg);
    let prefix = create_plan(impls.drop_last(), reg);
    if i == impls.len() - 1 {
        assert(plan[plan.len() - 1] == act);
    } else {
        assert(impls.drop_last()[i] == impls[i]);
        lemma_create_plan_member(impls.drop_last(), reg, i);
        let k = choose|k: int| 0 <= k < prefix.len() && prefix[k] == act;
        assert(plan[k] == act);
    }
}

/// A present-but-mismatched declared name's update, addressed at the
/// registered identifier and carrying the declared class, is in the
/// update bucket.
pub proof fn lemma_update_plan_member(
    impls: Seq<DurableObjectNamespaceImplView>,
    reg: Map<Seq<char>, NamespaceRecordView>,
    script: Seq<char>,
    i: int,
)
    requires
        0 <= i < impls.len(),
        reg.contains_key(impls[i].namespace_name),
        !impl_matched(impls[i], reg, script),
    ensures
        update_plan(impls, reg, script).contains(
            NamespaceActionView::Update {
                namespace_id: reg[impls[i].namespace_name].id,
                namespace_name: impls[i].namespace_name,
                class_name: impls[i].class_name,
            },
        ),
    decreases impls.len(),
{
    let act = NamespaceActionView::Update {
        namespace_id: reg[impls[i].namespace_name].id,
        namespace_name: impls[i].namespace_name,
        class_name: impls[i].class_name,
    };
    let plan = update_plan(impls, reg, script);
    let prefix = update_plan(impls.drop_last(), reg, script);
    if i == impls.len() - 1 {
        assert(plan[plan.len() - 1] == act);
    } else {
        assert(impls.drop_last()[i] == impls[i]);
        lemma_update_plan_member(impls.drop_last(), reg, script, i);
        let k = choose|k: int| 0 <= k < prefix.len() && prefix[k] == act;
        assert(plan[k] == act);
    }
}

/// A name no action touches keeps its registry entry across a whole plan.
pub proof fn lemma_apply_untouched(
    reg: Map<Seq<char>, NamespaceRecordView>,
    actions: Seq<NamespaceActionView>,
    script: Seq<char>,
    ids: Seq<Seq<char>>,
    n: Seq<char>,
)
    requires
        forall|k: int| 0 <= k < actions.len() ==> action_name(actions[k]) != n,
    ensures
        apply_actions(reg, actions, script, ids).contains_key(n) == reg.contains_key(n),
        reg.contains_key(n) ==> apply_actions(reg, actions, script, ids)[n] == reg[n],
    decreases actions.len(),
{
    if actions.len() > 0 {
        assert(forall|k: int|
            0 <= k < actions.len() - 1 ==> actions.drop_last()[k] == actions[k]);
        lemma_apply_untouched(reg, actions.drop_last(), script, ids.drop_last(), n);
        assert(action_name(actions[actions.len() - 1]) != n);
    }
}

/// The last action that touches a name determines its registry entry
/// after the plan: the deployed script, the declared class, and the
/// addressed identifier (for an update) or the remotely assigned one
/// (for a create).
pub proof fn lemma_apply_hit(
    reg: Map<Seq<char>, NamespaceRecordView>,
    actions: Seq<NamespaceActionView>,
    script: Seq<char>,
    ids: Seq<Seq<char>>,
    k: int,
)
    requires
        ids.len() == actions.len(),
        0 <= k < actions.len(),
        forall|j: int| k < j < actions.len() ==> action_name(actions[j]) != action_name(actions[k]),
    ensures
        apply_actions(reg, actions, script, ids).contains_key(action_name(actions[k])),
        apply_actions(reg, actions, script, ids)[action_name(actions[k])].name == action_name(
            actions[k],
        ),
        apply_actions(reg, actions, script, ids)[action_name(actions[k])].script == Some(script),
        apply_actions(reg, actions, script, ids)[action_name(actions[k])].class == Some(
            action_class(actions[k]),
        ),
    decreases actions.len(),
{
    if k < actions.len() - 1 {
        assert(forall|j: int|
            0 <= j < actions.len() - 1 ==> actions.drop_last()[j] == actions[j]);
        lemma_apply_hit(reg, actions.drop_last(), script, ids.drop_last(), k);
        assert(action_name(actions[actions.len() - 1]) != action_name(actions[k]));
    }
}

/// When every declared namespace is already present and matched, the
/// finalizer owes nothing.
pub proof fn lemma_finalized_plan_empty(
    impls: Seq<DurableObjectNamespaceImplView>,
    reg: Map<Seq<char>, NamespaceRecordView>,
    script: Seq<char>,
)
    requires
        all_finalized(impls, reg, script),
    ensures
        create_plan(impls, reg) == Seq::<NamespaceActionView>::empty(),
        update_plan(impls, reg, script) == Seq::<NamespaceActionView>::empty(),
        deploy_plan(impls, reg, script) == Seq::<NamespaceActionView>::empty(),
    decreases impls.len(),
{
    if impls.len() > 0 {
        assert(forall|x: int| 0 <= x < impls.len() - 1 ==> impls.drop_last()[x] == impls[x]);
        assert(all_finalized(impls.drop_last(), reg, script));
        lemma_finalized_plan_empty(impls.drop_last(), reg, script);
        assert(impl_matched(impls[impls.len() - 1], reg, script));
    }
    assert(create_plan(impls, reg) + update_plan(impls, reg, script)
        =~= Seq::<NamespaceActionView>::empty());
}

/// Idempotence of finalization: once a finalizer plan has been performed
/// and every creation and update took effect, a second run against the
/// resulting registry owes zero remote mutations.  Requires the declared
/// names to be distinct: two declarations of one name with different
/// classes would overwrite each other forever.
pub proof fn theorem_finalize_idempotent(
    impls: Seq<DurableObjectNamespaceImplView>,
    reg: Map<Seq<char>, NamespaceRecordView>,
    script: Seq<char>,
    ids: Seq<Seq<char>>,
)
    requires
        impl_names_distinct(impls),
        ids.len() == deploy_plan(impls, reg, script).len(),
    ensures
        deploy_plan(
            impls,
            apply_actions(reg, deploy_plan(impls, reg, script), script, ids),
            script,
        ) == Seq::<NamespaceActionView>::empty(),
{
    let plan = deploy_plan(impls, reg, script);
    let creates = create_plan(impls, reg);
    let updates = update_plan(impls, reg, script);
    let reg2 = apply_actions(reg, plan, script, ids);
    assert forall|i: int| 0 <= i < impls.len() implies impl_matched(impls[i], reg2, script) by {
        let ns = impls[i];
        let n = ns.namespace_name;
        lemma_create_plan_count(impls, reg, n);
        lemma_update_plan_count(impls, reg, script, n);
        lemma_name_count_add(creates, updates, n);
        if impl_matched(ns, reg, script) {
            assert(!(exists|i2: int|
                0 <= i2 < impls.len() && impls[i2].namespace_name == n && reg.contains_key(n)
                    && !impl_matched(impls[i2], reg, script))) by {
                if exists|i2: int|
                    0 <= i2 < impls.len() && impls[i2].namespace_name == n && reg.contains_key(n)
                        && !impl_matched(impls[i2], reg, script) {
                    let i2 = choose|i2: int|
                        0 <= i2 < impls.len() && impls[i2].namespace_name == n
                            && reg.contains_key(n) && !impl_matched(impls[i2], reg, script);
                    if i2 != i {
                        assert(impls[i2].namespace_name != impls[i].namespace_name);
                    }
                }
            };
            assert(name_count(plan, n) == 0);
            assert forall|j: int| 0 <= j < plan.len() implies action_name(plan[j]) != n by {
                if action_name(plan[j]) == n {
                    lemma_name_count_member(plan, n, j);
                }
            };
            lemma_apply_untouched(reg, plan, script, ids, n);
        } else if !reg.contains_key(n) {
            let act = NamespaceActionView::Create {
                namespace_name: n,
                class_name: ns.class_name,
            };
            lemma_create_plan_member(impls, reg, i);
            let j0 = choose|j0: int| 0 <= j0 < creates.len() && creates[j0] == act;
            assert(plan[j0] == act);
            assert(name_count(plan, n) == 1);
            assert forall|j: int| 0 <= j < plan.len() && j != j0 implies action_name(plan[j])
                != n by {
                if action_name(plan[j]) == n {
                    if j < j0 {
                        lemma_name_count_unique(plan, n, j, j0);
                    } else {
                        lemma_name_count_unique(plan, n, j0, j);
                    }
                }
            };
            lemma_apply_hit(reg, plan, script, ids, j0);
        } else {
            let act = NamespaceActionView::Update {
                namespace_id: reg[n].id,
                namespace_name: n,
                class_name: ns.class_name,
            };
            lemma_update_plan_member(impls, reg, script, i);
            let j1 = choose|j1: int| 0 <= j1 < updates.len() && updates[j1] == act;
            assert(plan[creates.len() + j1] == act);
            assert(name_count(plan, n) == 1);
            let j0 = creates.len() + j1;
            assert forall|j: int| 0 <= j < plan.len() && j != j0 implies action_name(plan[j])
                != n by {
                if action_name(plan[j]) == n {
                    if j < j0 {
                        lemma_name_count_unique(plan, n, j, j0);
                    } else {
                        lemma_name_count_unique(plan, n, j0, j);
                    }
                }
            };
            lemma_apply_hit(reg, plan, script, ids, j0);
        }
    };
    lemma_finalized_plan_empty(impls, reg2, script);
}

} // verus!
