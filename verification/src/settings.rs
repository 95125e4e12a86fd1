//! Declared intent: which namespaces a deployment unit implements and
//! which it binds to, as configuration produced them.

use vstd::prelude::*;

verus! {

/// A namespace this deployment unit declares itself the implementation
/// of: the namespace's name and the class backing it.
#[derive(Debug)]
pub struct DurableObjectNamespaceImpl {
    pub namespace_name: String,
    pub class_name: String,
}

/// Mathematical image of a [`DurableObjectNamespaceImpl`].
pub ghost struct DurableObjectNamespaceImplView {
    pub namespace_name: Seq<char>,
    pub class_name: Seq<char>,
}

impl View for DurableObjectNamespaceImpl {
    type V = DurableObjectNamespaceImplView;

    open spec fn view(&self) -> DurableObjectNamespaceImplView {
        DurableObjectNamespaceImplView {
            namespace_name: self.namespace_name@,
            class_name: self.class_name@,
        }
    }
}

impl Clone for DurableObjectNamespaceImpl {
    fn clone(&self) -> (res: Self)
        ensures
            res == *self,
    {
        DurableObjectNamespaceImpl {
            namespace_name: self.namespace_name.clone(),
            class_name: self.class_name.clone(),
        }
    }
}

/// A declared binding to a namespace by name.  The binding resolver
/// attaches the resolved identifier in place; a binding may also carry an
/// explicit identifier from the start, in which case it is left alone.
#[derive(Debug)]
pub struct UsedBinding {
    pub namespace_name: Option<String>,
    pub namespace_id: Option<String>,
}

/// Mathematical image of a [`UsedBinding`].
pub ghost struct UsedBindingView {
    pub namespace_name: Option<Seq<char>>,
    pub namespace_id: Option<Seq<char>>,
}

impl View for UsedBinding {
    type V = UsedBindingView;

    open spec fn view(&self) -> UsedBindingView {
        UsedBindingView {
            namespace_name: match self.namespace_name {
                Some(s) => Some(s@),
                None => None,
            },
            namespace_id: match self.namespace_id {
                Some(s) => Some(s@),
                None => None,
            },
        }
    }
}

impl Clone for UsedBinding {
    fn clone(&self) -> (res: Self)
        ensures
            res == *self,
    {
        UsedBinding {
            namespace_name: match &self.namespace_name {
                Some(s) => Some(s.clone()),
                None => None,
            },
            namespace_id: match &self.namespace_id {
                Some(s) => Some(s.clone()),
                None => None,
            },
        }
    }
}

/// The durable object declarations of one deployment unit: the namespaces
/// it implements and the namespaces it binds to.
#[derive(Debug)]
pub struct DurableObjects {
    pub implements: Option<Vec<DurableObjectNamespaceImpl>>,
    pub uses: Option<Vec<UsedBinding>>,
}

/// The views of a sequence of implemented-namespace declarations.
pub open spec fn impl_records_view(s: Seq<DurableObjectNamespaceImpl>) -> Seq<
    DurableObjectNamespaceImplView,
> {
    Seq::new(s.len(), |i: int| s[i]@)
}

/// The views of a sequence of bindings.
pub open spec fn binding_records_view(s: Seq<UsedBinding>) -> Seq<UsedBindingView> {
    Seq::new(s.len(), |i: int| s[i]@)
}

/// The views of a sequence of strings.
pub open spec fn strings_view(s: Seq<String>) -> Seq<Seq<char>> {
    Seq::new(s.len(), |i: int| s[i]@)
}

/// The implemented-namespace declarations of a unit, an absent list
/// meaning none.
pub open spec fn impls_view(d: DurableObjects) -> Seq<DurableObjectNamespaceImplView> {
    match d.implements {
        Some(v) => impl_records_view(v@),
        None => Seq::empty(),
    }
}

/// The declared bindings of a unit, an absent list meaning none.
pub open spec fn uses_view(d: DurableObjects) -> Seq<UsedBindingView> {
    match d.uses {
        Some(v) => binding_records_view(v@),
        None => Seq::empty(),
    }
}

/// Whether some declaration implements `name`.
pub open spec fn declares_impl(
    impls: Seq<DurableObjectNamespaceImplView>,
    name: Seq<char>,
) -> bool {
    exists|i: int| 0 <= i < impls.len() && impls[i].namespace_name == name
}

/// Whether some binding names `name`.
pub open spec fn uses_name(uses: Seq<UsedBindingView>, name: Seq<char>) -> bool {
    exists|i: int| 0 <= i < uses.len() && uses[i].namespace_name == Some(name)
}

/// Whether any implemented-namespace declaration carries `name`.
pub fn impls_contain(impls: &Vec<DurableObjectNamespaceImpl>, name: &String) -> (b: bool)
    ensures
        b == declares_impl(impl_records_view(impls@), name@),
{
    let mut i: usize = 0;
    while i < impls.len()
        invariant
            i <= impls@.len(),
            forall|j: int| 0 <= j < i ==> impls@[j]@.namespace_name != name@,
        decreases impls@.len() - i,
    {
        if impls[i].namespace_name == *name {
            proof {
                assert(impl_records_view(impls@)[i as int].namespace_name == name@);
            }
            return true;
        }
        i = i + 1;
    }
    proof {
        assert(forall|j: int|
            0 <= j < impl_records_view(impls@).len()
                ==> impl_records_view(impls@)[j].namespace_name != name@);
    }
    false
}

/// Whether `names` already holds `name`.
pub fn names_contain(names: &Vec<String>, name: &String) -> (b: bool)
    ensures
        b == strings_view(names@).contains(name@),
{
    let mut i: usize = 0;
    while i < names.len()
        invariant
            i <= names@.len(),
            forall|j: int| 0 <= j < i ==> names@[j]@ != name@,
        decreases names@.len() - i,
    {
        if names[i] == *name {
            proof {
                assert(strings_view(names@)[i as int] == name@);
            }
            return true;
        }
        i = i + 1;
    }
    proof {
        assert(forall|j: int|
            0 <= j < strings_view(names@).len() ==> strings_view(names@)[j] != name@);
    }
    false
}

} // verus!
