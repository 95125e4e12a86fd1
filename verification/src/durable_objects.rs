//! Reconciliation of durable object namespaces for one deployment unit.
//!
//! A single target owns the unit's declarations and one registry, because
//! a unit commonly both implements and uses the same namespace and every
//! phase must see the placeholders the unit itself created.  The phases
//! run in order: directory refresh, cycle-breaking, binding resolution
//! (all before the script upload), then finalization afterwards.  Every
//! remote call is made by the caller, which feeds the parsed responses
//! back in; the functions here make all decisions in between.

use vstd::prelude::*;

use crate::error::DeployError;
use crate::error::DeployErrorView;
use crate::registry::NamespaceRecord;
use crate::registry::NamespaceRecordView;
use crate::registry::Registry;
use crate::settings::DurableObjectNamespaceImplView;
use crate::settings::DurableObjects;
use crate::settings::UsedBinding;
use crate::settings::UsedBindingView;
use crate::settings::binding_records_view;
use crate::settings::declares_impl;
use crate::settings::impls_contain;
use crate::settings::impls_view;
use crate::settings::names_contain;
use crate::settings::strings_view;
use crate::settings::uses_view;

verus! {

/// The names that the cycle-breaker must create as placeholders: every
/// name that some binding uses, that the unit also implements, and that
/// the registry does not know yet; in the order bindings first mention
/// them, each name once.
pub open spec fn self_referential_plan(
    uses: Seq<UsedBindingView>,
    impls: Seq<DurableObjectNamespaceImplView>,
    reg: Map<Seq<char>, NamespaceRecordView>,
) -> Seq<Seq<char>>
    decreases uses.len(),
{
    if uses.len() == 0 {
        Seq::empty()
    } else {
        let prefix = self_referential_plan(uses.drop_last(), impls, reg);
        match uses.last().namespace_name {
            Some(n) => if declares_impl(impls, n) && !reg.contains_key(n) && !prefix.contains(n) {
                prefix.push(n)
            } else {
                prefix
            },
            None => prefix,
        }
    }
}

/// Whether a binding still needs resolution: it names a namespace and
/// carries no identifier yet.
pub open spec fn binding_needs_resolution(b: UsedBindingView) -> bool {
    b.namespace_name is Some && b.namespace_id is None
}

/// Whether the registry can satisfy a binding: either it needs no
/// resolution, or the name it uses is known.
pub open spec fn binding_resolvable(
    b: UsedBindingView,
    reg: Map<Seq<char>, NamespaceRecordView>,
) -> bool {
    binding_needs_resolution(b) ==> reg.contains_key(b.namespace_name->0)
}

/// A binding after resolution: the identifier of the registered record is
/// attached where one was needed and available; anything else is left
/// untouched.
pub open spec fn resolved_binding(
    b: UsedBindingView,
    reg: Map<Seq<char>, NamespaceRecordView>,
) -> UsedBindingView {
    if binding_needs_resolution(b) && reg.contains_key(b.namespace_name->0) {
        UsedBindingView {
            namespace_name: b.namespace_name,
            namespace_id: Some(reg[b.namespace_name->0].id),
        }
    } else {
        b
    }
}

/// The position of the first binding the registry cannot satisfy, or the
/// length of the sequence when it can satisfy them all.
pub open spec fn first_unresolvable(
    bs: Seq<UsedBindingView>,
    reg: Map<Seq<char>, NamespaceRecordView>,
) -> int
    decreases bs.len(),
{
    if bs.len() == 0 {
        0
    } else if !binding_resolvable(bs[0], reg) {
        0
    } else {
        1 + first_unresolvable(bs.drop_first(), reg)
    }
}

/// What [`first_unresolvable`] points at: every binding before it is
/// resolvable, and the one at it (if any) is not.
pub proof fn lemma_first_unresolvable(
    bs: Seq<UsedBindingView>,
    reg: Map<Seq<char>, NamespaceRecordView>,
)
    ensures
        0 <= first_unresolvable(bs, reg) <= bs.len(),
        forall|j: int| 0 <= j < first_unresolvable(bs, reg) ==> binding_resolvable(bs[j], reg),
        first_unresolvable(bs, reg) < bs.len() ==> !binding_resolvable(
            bs[first_unresolvable(bs, reg)],
            reg,
        ),
    decreases bs.len(),
{
    if bs.len() > 0 && binding_resolvable(bs[0], reg) {
        lemma_first_unresolvable(bs.drop_first(), reg);
        assert forall|j: int| 0 <= j < first_unresolvable(bs, reg) implies binding_resolvable(
            bs[j],
            reg,
        ) by {
            if j > 0 {
                assert(bs.drop_first()[j - 1] == bs[j]);
                assert(binding_resolvable(bs.drop_first()[j - 1], reg));
            }
        };
    }
}

/// One remote mutation the finalizer asks the caller to perform: create a
/// namespace with the unit's script and the declared class attached, or
/// update an existing namespace (by its identifier) to them.
#[derive(Debug)]
pub enum NamespaceAction {
    Create { namespace_name: String, class_name: String },
    Update { namespace_id: String, namespace_name: String, class_name: String },
}

/// Mathematical image of a [`NamespaceAction`].
pub ghost enum NamespaceActionView {
    Create { namespace_name: Seq<char>, class_name: Seq<char> },
    Update { namespace_id: Seq<char>, namespace_name: Seq<char>, class_name: Seq<char> },
}

impl View for NamespaceAction {
    type V = NamespaceActionView;

    open spec fn view(&self) -> NamespaceActionView {
        match self {
            NamespaceAction::Create { namespace_name, class_name } => NamespaceActionView::Create {
                namespace_name: namespace_name@,
                class_name: class_name@,
            },
            NamespaceAction::Update {
                namespace_id,
                namespace_name,
                class_name,
            } => NamespaceActionView::Update {
                namespace_id: namespace_id@,
                namespace_name: namespace_name@,
                class_name: class_name@,
            },
        }
    }
}

/// The name an action is about.
pub open spec fn action_name(a: NamespaceActionView) -> Seq<char> {
    match a {
        NamespaceActionView::Create { namespace_name, .. } => namespace_name,
        NamespaceActionView::Update { namespace_name, .. } => namespace_name,
    }
}

/// The views of a sequence of actions.
pub open spec fn actions_view(s: Seq<NamespaceAction>) -> Seq<NamespaceActionView> {
    Seq::new(s.len(), |i: int| s[i]@)
}

/// The names a performed plan touches, position by position.
pub open spec fn plan_names(actions: Seq<NamespaceActionView>) -> Seq<Seq<char>> {
    Seq::new(actions.len(), |i: int| action_name(actions[i]))
}

/// The namespace names a finalizer plan touches, in the order the
/// actions are performed: what a fully successful run reports.
pub fn touched_names(plan: &Vec<NamespaceAction>) -> (names: Vec<String>)
    ensures
        strings_view(names@) == plan_names(actions_view(plan@)),
{
    let mut names: Vec<String> = Vec::new();
    let mut i: usize = 0;
    while i < plan.len()
        invariant
            i <= plan@.len(),
            strings_view(names@) =~= plan_names(actions_view(plan@)).take(i as int),
        decreases plan@.len() - i,
    {
        let name = match &plan[i] {
            NamespaceAction::Create { namespace_name, .. } => namespace_name.clone(),
            NamespaceAction::Update { namespace_name, .. } => namespace_name.clone(),
        };
        names.push(name);
        proof {
            let pn = plan_names(actions_view(plan@));
            assert(strings_view(names@) =~= pn.take(i as int).push(pn[i as int]));
            assert(pn.take(i + 1) =~= pn.take(i as int).push(pn[i as int]));
        }
        i = i + 1;
    }
    proof {
        assert(strings_view(names@) =~= plan_names(actions_view(plan@)));
    }
    names
}

/// Present-and-matched: the registry holds the name and records exactly
/// the declared association, so the finalizer owes no remote call for it.
pub open spec fn impl_matched(
    ns: DurableObjectNamespaceImplView,
    reg: Map<Seq<char>, NamespaceRecordView>,
    script: Seq<char>,
) -> bool {
    &&& reg.contains_key(ns.namespace_name)
    &&& reg[ns.namespace_name].script == Some(script)
    &&& reg[ns.namespace_name].class == Some(ns.class_name)
}

/// The create bucket: one create, in declaration order, for every
/// implemented namespace whose name the registry does not hold.
pub open spec fn create_plan(
    impls: Seq<DurableObjectNamespaceImplView>,
    reg: Map<Seq<char>, NamespaceRecordView>,
) -> Seq<NamespaceActionView>
    decreases impls.len(),
{
    if impls.len() == 0 {
        Seq::empty()
    } else {
        let prefix = create_plan(impls.drop_last(), reg);
        let ns = impls.last();
        if !reg.contains_key(ns.namespace_name) {
            prefix.push(
                NamespaceActionView::Create {
                    namespace_name: ns.namespace_name,
                    class_name: ns.class_name,
                },
            )
        } else {
            prefix
        }
    }
}

/// The update bucket: one update, in declaration order and addressed by
/// the registered identifier, for every implemented namespace the
/// registry holds under a different script or class than declared.
pub open spec fn update_plan(
    impls: Seq<DurableObjectNamespaceImplView>,
    reg: Map<Seq<char>, NamespaceRecordView>,
    script: Seq<char>,
) -> Seq<NamespaceActionView>
    decreases impls.len(),
{
    if impls.len() == 0 {
        Seq::empty()
    } else {
        let prefix = update_plan(impls.drop_last(), reg, script);
        let ns = impls.last();
        if reg.contains_key(ns.namespace_name) && !impl_matched(ns, reg, script) {
            prefix.push(
                NamespaceActionView::Update {
                    namespace_id: reg[ns.namespace_name].id,
                    namespace_name: ns.namespace_name,
                    class_name: ns.class_name,
                },
            )
        } else {
            prefix
        }
    }
}

/// Everything the finalizer asks for after upload: all creates, then all
/// updates, each bucket in declaration order.
pub open spec fn deploy_plan(
    impls: Seq<DurableObjectNamespaceImplView>,
    reg: Map<Seq<char>, NamespaceRecordView>,
    script: Seq<char>,
) -> Seq<NamespaceActionView> {
    create_plan(impls, reg) + update_plan(impls, reg, script)
}

/// One deployment unit's reconciliation state: the account and script the
/// unit deploys to, its declarations, and the registry of namespaces the
/// run knows so far.
pub struct DurableObjectsTarget {
    pub account_id: String,
    pub script_name: String,
    pub durable_objects: DurableObjects,
    pub existing_namespaces: Registry,
}

impl DurableObjectsTarget {
    /// The name-to-record mapping this target currently knows: the most
    /// recent directory refresh plus every in-run creation.
    pub open spec fn registry(&self) -> Map<Seq<char>, NamespaceRecordView> {
        self.existing_namespaces@
    }

    /// A fresh target for one deployment run, knowing no namespaces yet.
    pub fn new(account_id: String, script_name: String, durable_objects: DurableObjects) -> (t:
        Self)
        ensures
            t.account_id == account_id,
            t.script_name == script_name,
            t.durable_objects == durable_objects,
            t.registry() == Map::<Seq<char>, NamespaceRecordView>::empty(),
    {
        DurableObjectsTarget {
            account_id,
            script_name,
            durable_objects,
            existing_namespaces: Registry::new(),
        }
    }

    /// Directory refresh: replace everything the registry knows with the
    /// listing the caller fetched from the remote directory.  Runs before
    /// cycle-breaking and must leave the declarations alone.
    pub fn get_existing_namespaces(&mut self, listing: Vec<NamespaceRecord>)
        ensures
            final(self).registry() == crate::registry::as_namespace_map(
                crate::registry::records_view(listing@),
            ),
            final(self).account_id == old(self).account_id,
            final(self).script_name == old(self).script_name,
            final(self).durable_objects == old(self).durable_objects,
    {
        self.existing_namespaces.replace_all(listing);
    }

    /// Record the namespace a create call returned, keyed by its name, so
    /// that the rest of the run sees it as existing.
    pub fn record_created_namespace(&mut self, record: NamespaceRecord)
        ensures
            final(self).registry() == old(self).registry().insert(record.name@, record@),
            final(self).account_id == old(self).account_id,
            final(self).script_name == old(self).script_name,
            final(self).durable_objects == old(self).durable_objects,
    {
        self.existing_namespaces.insert(record);
    }

    /// Look up the record registered under a name, if any.
    pub fn get_namespace(&self, name: &String) -> (r: Option<&NamespaceRecord>)
        ensures
            match r {
                Some(rec) => self.registry().contains_key(name@) && rec@ == self.registry()[name@],
                None => !self.registry().contains_key(name@),
            },
    {
        self.existing_namespaces.get(name)
    }

    /// Cycle-breaking: the names for which the caller must create
    /// placeholder namespaces (no script, no class) before upload, so
    /// that an identifier exists for their bindings.  These are exactly
    /// the names the unit both implements and uses that the registry does
    /// not know; the caller records each created namespace through
    /// [`Self::record_created_namespace`].
    pub fn init_self_referential_namespaces(&self) -> (plan: Vec<String>)
        ensures
            strings_view(plan@) == self_referential_plan(
                uses_view(self.durable_objects),
                impls_view(self.durable_objects),
                self.registry(),
            ),
    {
        let ghost iv = impls_view(self.durable_objects);
        let ghost reg = self.registry();
        let mut plan: Vec<String> = Vec::new();
        let uses = match &self.durable_objects.uses {
            Some(u) => u,
            None => {
                proof {
                    assert(strings_view(plan@) =~= self_referential_plan(
                        uses_view(self.durable_objects),
                        iv,
                        reg,
                    ));
                }
                return plan;
            }
        };
        let ghost uv = binding_records_view(uses@);
        let mut i: usize = 0;
        while i < uses.len()
            invariant
                i <= uses@.len(),
                uv == binding_records_view(uses@),
                iv == impls_view(self.durable_objects),
                reg == self.registry(),
                uses@ == self.durable_objects.uses->0@,
                self.durable_objects.uses is Some,
                strings_view(plan@) == self_referential_plan(uv.take(i as int), iv, reg),
            decreases uses@.len() - i,
        {
            let ghost plan_before = strings_view(plan@);
            if let Some(name) = &uses[i].namespace_name {
                let mut implemented = false;
                if let Some(impls) = &self.durable_objects.implements {
                    implemented = impls_contain(impls, name);
                }
                if implemented && !self.existing_namespaces.contains(name) && !names_contain(
                    &plan,
                    name,
                ) {
                    plan.push(name.clone());
                    proof {
                        assert(strings_view(plan@) =~= plan_before.push(name@));
                    }
                }
            }
            proof {
                let t1 = uv.take(i + 1);
                assert(t1.drop_last() =~= uv.take(i as int));
                assert(t1.last() == uv[i as int]);
                assert(strings_view(plan@) == self_referential_plan(t1, iv, reg));
            }
            i = i + 1;
        }
        proof {
            assert(uv.take(uses@.len() as int) =~= uv);
        }
        plan
    }

    /// Binding resolution, the last step before upload: attach to every
    /// binding that names a namespace and has no identifier yet the
    /// identifier the registry records for that name.  The first binding
    /// whose name the registry does not know fails the run with
    /// [`DeployError::NamespaceNotFound`]; bindings before it keep their
    /// resolution, bindings after it are untouched.
    pub fn pre_upload(&mut self) -> (r: Result<(), DeployError>)
        ensures
            final(self).account_id == old(self).account_id,
            final(self).script_name == old(self).script_name,
            final(self).registry() == old(self).registry(),
            final(self).durable_objects.implements == old(self).durable_objects.implements,
            uses_view(final(self).durable_objects).len() == uses_view(
                old(self).durable_objects,
            ).len(),
            ({
                let uv = uses_view(old(self).durable_objects);
                let fv = uses_view(final(self).durable_objects);
                let reg = old(self).registry();
                let k = first_unresolvable(uv, reg);
                &&& (r is Ok <==> k == uv.len())
                &&& forall|j: int| 0 <= j < k ==> fv[j] == resolved_binding(uv[j], reg)
                &&& forall|j: int| k <= j < uv.len() ==> fv[j] == uv[j]
                &&& (r is Err ==> r->Err_0@ == (DeployErrorView::NamespaceNotFound {
                    name: uv[k].namespace_name->0,
                }))
            }),
    {
        let ghost reg = self.registry();
        let mut taken: Option<Vec<UsedBinding>> = None;
        core::mem::swap(&mut taken, &mut self.durable_objects.uses);
        let mut uses = match taken {
            Some(u) => u,
            None => {
                return Ok(());
            }
        };
        let ghost uv = binding_records_view(uses@);
        let mut err: Option<DeployError> = None;
        let mut i: usize = 0;
        while i < uses.len() && err.is_none()
            invariant
                i <= uses@.len(),
                uses@.len() == uv.len(),
                reg == self.registry(),
                forall|j: int| 0 <= j < i ==> binding_resolvable(uv[j], reg),
                forall|j: int|
                    0 <= j < i ==> binding_records_view(uses@)[j] == resolved_binding(uv[j], reg),
                forall|j: int| i <= j < uv.len() ==> binding_records_view(uses@)[j] == uv[j],
                err is Some ==> i < uv.len() && !binding_resolvable(uv[i as int], reg)
                    && err->0@ == (DeployErrorView::NamespaceNotFound {
                    name: uv[i as int].namespace_name->0,
                }),
            decreases uses@.len() - i + (if err is Some { 0int } else { 1int }),
        {
            let ghost uses_before = binding_records_view(uses@);
            let mut advance = true;
            if uses[i].namespace_id.is_none() {
                let mut replacement: Option<UsedBinding> = None;
                if let Some(name) = &uses[i].namespace_name {
                    match self.existing_namespaces.get(name) {
                        Some(rec) => {
                            replacement = Some(
                                UsedBinding {
                                    namespace_name: Some(name.clone()),
                                    namespace_id: Some(rec.id.clone()),
                                },
                            );
                        }
                        None => {
                            err = Some(DeployError::NamespaceNotFound { name: name.clone() });
                            advance = false;
                        }
                    }
                }
                if let Some(b) = replacement {
                    uses[i] = b;
                }
            }
            proof {
                assert(forall|j: int|
                    0 <= j < uses@.len() && j != i ==> binding_records_view(uses@)[j]
                        == uses_before[j]);
                if advance {
                    assert(binding_records_view(uses@)[i as int] == resolved_binding(
                        uv[i as int],
                        reg,
                    ));
                    assert forall|j: int| 0 <= j < i + 1 implies binding_records_view(uses@)[j]
                        == resolved_binding(uv[j], reg) by {
                        if j < i {
                            assert(binding_records_view(uses@)[j] == uses_before[j]);
                            assert(uses_before[j] == resolved_binding(uv[j], reg));
                        }
                    };
                    assert forall|j: int| i + 1 <= j < uv.len() implies binding_records_view(
                        uses@,
                    )[j] == uv[j] by {
                        assert(binding_records_view(uses@)[j] == uses_before[j]);
                    };
                } else {
                    assert forall|j: int| 0 <= j < i implies binding_records_view(uses@)[j]
                        == resolved_binding(uv[j], reg) by {
                        assert(binding_records_view(uses@)[j] == uses_before[j]);
                    };
                }
            }
            if advance {
                i = i + 1;
            }
        }
        self.durable_objects.uses = Some(uses);
        proof {
            lemma_first_unresolvable(uv, reg);
            let k = first_unresolvable(uv, reg);
            if err is Some {
                assert(!(k > i)) by {
                    if k > i {
                        assert(binding_resolvable(uv[i as int], reg));
                    }
                };
                assert(!(k < i)) by {
                    if k < i {
                        assert(binding_resolvable(uv[k], reg));
                    }
                };
                assert(k == i);
            } else {
                assert(k == uv.len());
            }
        }
        match err {
            None => Ok(()),
            Some(e) => Err(e),
        }
    }

    /// Finalization, after the script upload: classify every implemented
    /// namespace against the registry entry of its name into create
    /// (absent), update (present but associated with a different script
    /// or class — a placeholder from cycle-breaking falls here), or
    /// no-op (present and matched), and return the remote mutations the
    /// caller must perform: all creates first, then all updates, each in
    /// declaration order.
    pub fn deploy(&self) -> (plan: Vec<NamespaceAction>)
        ensures
            actions_view(plan@) == deploy_plan(
                impls_view(self.durable_objects),
                self.registry(),
                self.script_name@,
            ),
    {
        let ghost reg = self.registry();
        let ghost script = self.script_name@;
        let mut plan: Vec<NamespaceAction> = Vec::new();
        let impls = match &self.durable_objects.implements {
            Some(v) => v,
            None => {
                proof {
                    assert(actions_view(plan@) =~= deploy_plan(
                        impls_view(self.durable_objects),
                        reg,
                        script,
                    ));
                }
                return plan;
            }
        };
        let ghost iv = crate::settings::impl_records_view(impls@);
        let mut i: usize = 0;
        while i < impls.len()
            invariant
                i <= impls@.len(),
                iv == crate::settings::impl_records_view(impls@),
                iv == impls_view(self.durable_objects),
                reg == self.registry(),
                script == self.script_name@,
                self.durable_objects.implements == Some(*impls),
                actions_view(plan@) == create_plan(iv.take(i as int), reg),
            decreases impls@.len() - i,
        {
            let ghost plan_before = actions_view(plan@);
            let ns = &impls[i];
            if self.existing_namespaces.get(&ns.namespace_name).is_none() {
                plan.push(
                    NamespaceAction::Create {
                        namespace_name: ns.namespace_name.clone(),
                        class_name: ns.class_name.clone(),
                    },
                );
                proof {
                    assert(actions_view(plan@) =~= plan_before.push(
                        NamespaceActionView::Create {
                            namespace_name: ns.namespace_name@,
                            class_name: ns.class_name@,
                        },
                    ));
                }
            }
            proof {
                let t1 = iv.take(i + 1);
                assert(t1.drop_last() =~= iv.take(i as int));
                assert(t1.last() == iv[i as int]);
                assert(actions_view(plan@) == create_plan(t1, reg));
            }
            i = i + 1;
        }
        proof {
            assert(iv.take(impls@.len() as int) =~= iv);
        }
        let mut i: usize = 0;
        while i < impls.len()
            invariant
                i <= impls@.len(),
                iv == crate::settings::impl_records_view(impls@),
                iv == impls_view(self.durable_objects),
                reg == self.registry(),
                script == self.script_name@,
                self.durable_objects.implements == Some(*impls),
                actions_view(plan@) == create_plan(iv, reg) + update_plan(
                    iv.take(i as int),
                    reg,
                    script,
                ),
            decreases impls@.len() - i,
        {
            let ghost plan_before = actions_view(plan@);
            let ns = &impls[i];
            if let Some(current) = self.existing_namespaces.get(&ns.namespace_name) {
                let script_matches = match &current.script {
                    Some(s) => *s == self.script_name,
                    None => false,
                };
                let class_matches = match &current.class {
                    Some(c) => *c == ns.class_name,
                    None => false,
                };
                if !(script_matches && class_matches) {
                    plan.push(
                        NamespaceAction::Update {
                            namespace_id: current.id.clone(),
                            namespace_name: ns.namespace_name.clone(),
                            class_name: ns.class_name.clone(),
                        },
                    );
                    proof {
                        assert(actions_view(plan@) =~= plan_before.push(
                            NamespaceActionView::Update {
                                namespace_id: reg[ns.namespace_name@].id,
                                namespace_name: ns.namespace_name@,
                                class_name: ns.class_name@,
                            },
                        ));
                    }
                }
            }
            proof {
                let t1 = iv.take(i + 1);
                assert(t1.drop_last() =~= iv.take(i as int));
                assert(t1.last() == iv[i as int]);
                assert(create_plan(iv, reg) + update_plan(t1, reg, script) =~= ({
                    let prefix = update_plan(iv.take(i as int), reg, script);
                    let nsv = iv[i as int];
                    if reg.contains_key(nsv.namespace_name) && !impl_matched(nsv, reg, script) {
                        (create_plan(iv, reg) + prefix).push(
                            NamespaceActionView::Update {
                                namespace_id: reg[nsv.namespace_name].id,
                                namespace_name: nsv.namespace_name,
                                class_name: nsv.class_name,
                            },
                        )
                    } else {
                        create_plan(iv, reg) + prefix
                    }
                }));
                assert(actions_view(plan@) == create_plan(iv, reg) + update_plan(t1, reg, script));
            }
            i = i + 1;
        }
        proof {
            assert(iv.take(impls@.len() as int) =~= iv);
        }
        plan
    }
}

} // verus!
