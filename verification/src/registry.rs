//! The namespace registry: an in-memory cache of the remote namespace
//! directory for one deployment run.
//!
//! The registry is the single source of truth the reconciliation phases
//! consult.  Abstractly it is a mapping from namespace name to the record
//! most recently observed (or created) under that name; it is replaced
//! wholesale by a directory refresh and grows by one entry for every
//! placeholder namespace created during cycle-breaking.

use vstd::prelude::*;

verus! {

/// One namespace as the remote directory reports it: its stable name, the
/// remotely assigned opaque identifier, and the script and class currently
/// associated with it (absent for a placeholder namespace).
#[derive(Debug)]
pub struct NamespaceRecord {
    pub name: String,
    pub id: String,
    pub script: Option<String>,
    pub class: Option<String>,
}

/// Mathematical image of a [`NamespaceRecord`].
pub ghost struct NamespaceRecordView {
    pub name: Seq<char>,
    pub id: Seq<char>,
    pub script: Option<Seq<char>>,
    pub class: Option<Seq<char>>,
}

impl View for NamespaceRecord {
    type V = NamespaceRecordView;

    open spec fn view(&self) -> NamespaceRecordView {
        NamespaceRecordView {
            name: self.name@,
            id: self.id@,
            script: match self.script {
                Some(s) => Some(s@),
                None => None,
            },
            class: match self.class {
                Some(c) => Some(c@),
                None => None,
            },
        }
    }
}

fn clone_optional_string(s: &Option<String>) -> (res: Option<String>)
    ensures
        res == *s,
{
    match s {
        Some(v) => Some(v.clone()),
        None => None,
    }
}

impl Clone for NamespaceRecord {
    fn clone(&self) -> (res: Self)
        ensures
            res == *self,
    {
        NamespaceRecord {
            name: self.name.clone(),
            id: self.id.clone(),
            script: clone_optional_string(&self.script),
            class: clone_optional_string(&self.class),
        }
    }
}

/// The views of a sequence of records, element by element.
pub open spec fn records_view(s: Seq<NamespaceRecord>) -> Seq<NamespaceRecordView> {
    Seq::new(s.len(), |i: int| s[i]@)
}

/// The name-to-record mapping denoted by a sequence of records; a later
/// record under the same name supersedes an earlier one, exactly as
/// inserting them into a map one by one would.
pub open spec fn as_namespace_map(s: Seq<NamespaceRecordView>) -> Map<Seq<char>, NamespaceRecordView>
    decreases s.len(),
{
    if s.len() == 0 {
        Map::empty()
    } else {
        as_namespace_map(s.drop_last()).insert(s.last().name, s.last())
    }
}

/// A name is in the mapping exactly when some record carries it.
pub proof fn lemma_as_namespace_map_contains(s: Seq<NamespaceRecordView>, n: Seq<char>)
    ensures
        as_namespace_map(s).contains_key(n) <==> exists|i: int| 0 <= i < s.len() && s[i].name == n,
    decreases s.len(),
{
    if s.len() > 0 {
        lemma_as_namespace_map_contains(s.drop_last(), n);
        assert(forall|i: int| 0 <= i < s.len() - 1 ==> s.drop_last()[i] == s[i]);
        if as_namespace_map(s).contains_key(n) && s.last().name != n {
            let i = choose|i: int| 0 <= i < s.drop_last().len() && s.drop_last()[i].name == n;
            assert(s[i].name == n);
        }
        if exists|i: int| 0 <= i < s.len() && s[i].name == n {
            let i = choose|i: int| 0 <= i < s.len() && s[i].name == n;
            if i < s.len() - 1 {
                assert(s.drop_last()[i].name == n);
            }
        }
    }
}

/// The mapping sends a name to the last record that carries it.
pub proof fn lemma_as_namespace_map_at(s: Seq<NamespaceRecordView>, n: Seq<char>, i: int)
    requires
        0 <= i < s.len(),
        s[i].name == n,
        forall|j: int| i < j < s.len() ==> s[j].name != n,
    ensures
        as_namespace_map(s).contains_key(n),
        as_namespace_map(s)[n] == s[i],
    decreases s.len(),
{
    if i < s.len() - 1 {
        assert(s.last().name != n);
        assert(forall|j: int| 0 <= j < s.len() - 1 ==> s.drop_last()[j] == s[j]);
        lemma_as_namespace_map_at(s.drop_last(), n, i);
    }
}

/// In-memory cache of the remote namespace directory, scoped to a single
/// deployment run.  Viewed abstractly as a map from namespace name to
/// record.  Mutated only by a bulk replace on refresh and by inserting the
/// record returned from each namespace creation; never deleted from.
pub struct Registry {
    records: Vec<NamespaceRecord>,
}

impl View for Registry {
    type V = Map<Seq<char>, NamespaceRecordView>;

    closed spec fn view(&self) -> Map<Seq<char>, NamespaceRecordView> {
        as_namespace_map(records_view(self.records@))
    }
}

impl Registry {
    /// An empty registry, knowing no namespaces yet.
    pub fn new() -> (r: Registry)
        ensures
            r@ == Map::<Seq<char>, NamespaceRecordView>::empty(),
    {
        let r = Registry { records: Vec::new() };
        proof {
            assert(records_view(r.records@) =~= Seq::<NamespaceRecordView>::empty());
        }
        r
    }

    /// Replace the whole content with a fresh directory listing.
    pub fn replace_all(&mut self, listing: Vec<NamespaceRecord>)
        ensures
            final(self)@ == as_namespace_map(records_view(listing@)),
    {
        self.records = listing;
    }

    /// Record one namespace under its name, superseding any previous
    /// record of that name.
    pub fn insert(&mut self, record: NamespaceRecord)
        ensures
            final(self)@ == old(self)@.insert(record.name@, record@),
    {
        let ghost rv = record@;
        let ghost old_records = self.records@;
        self.records.push(record);
        proof {
            assert(records_view(self.records@) =~= records_view(old_records).push(rv));
            assert(records_view(old_records).push(rv).drop_last() =~= records_view(old_records));
            assert(records_view(old_records).push(rv).last() == rv);
        }
    }

    /// Look a name up, returning the record registered under it, if any.
    pub fn get(&self, name: &String) -> (r: Option<&NamespaceRecord>)
        ensures
            match r {
                Some(rec) => self@.contains_key(name@) && rec@ == self@[name@],
                None => !self@.contains_key(name@),
            },
    {
        let mut i: usize = self.records.len();
        while i > 0
            invariant
                i <= self.records@.len(),
                forall|j: int| i <= j < self.records@.len() ==> self.records@[j]@.name != name@,
            decreases i,
        {
            i = i - 1;
            if self.records[i].name == *name {
                proof {
                    assert(forall|j: int|
                        i < j < records_view(self.records@).len()
                            ==> records_view(self.records@)[j].name != name@);
                    lemma_as_namespace_map_at(records_view(self.records@), name@, i as int);
                }
                return Some(&self.records[i]);
            }
        }
        proof {
            lemma_as_namespace_map_contains(records_view(self.records@), name@);
        }
        None
    }

    /// Whether a name is already known, from the directory or from an
    /// in-run creation.
    pub fn contains(&self, name: &String) -> (b: bool)
        ensures
            b == self@.contains_key(name@),
    {
        self.get(name).is_some()
    }
}

} // verus!
