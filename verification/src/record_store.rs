//! The bookkeeping of a replicated record store: its namespaces, the
//! records this server owns in each, and the records currently mirrored
//! from their owners. The records themselves live in storage outside this
//! module.
use vstd::prelude::*;
use crate::bytes::str_is;
use vstd::string::StrSliceExecFns;

verus! {

/// A set of names, each held once.
pub struct NameSet {
    names: Vec<String>,
}

pub open spec fn name_views(s: Seq<String>) -> Seq<Seq<char>> {
    s.map_values(|n: String| n@)
}

impl NameSet {
    pub closed spec fn wf(&self) -> bool {
        name_views(self.names@).no_duplicates()
    }

    /// The names held.
    pub closed spec fn view(&self) -> Set<Seq<char>> {
        name_views(self.names@).to_set()
    }

    pub fn new() -> (r: NameSet)
        ensures
            r.wf(),
            r.view() == Set::<Seq<char>>::empty(),
    {
        let r = NameSet { names: Vec::new() };
        assert(name_views(r.names@) =~= Seq::<Seq<char>>::empty());
        assert(r.view() =~= Set::<Seq<char>>::empty());
        r
    }

    fn position(&self, name: &str) -> (r: Option<usize>)
        ensures
            match r {
                Some(i) => i < self.names@.len() && self.names@[i as int]@ == name@,
                None => !self.view().contains(name@),
            },
    {
        let ghost vs = name_views(self.names@);
        let mut i: usize = 0;
        while i < self.names.len()
            invariant
                i <= self.names@.len(),
                vs == name_views(self.names@),
                forall|k: int| 0 <= k < i ==> vs[k] != name@,
            decreases self.names@.len() - i,
        {
            if str_is(self.names[i].as_str(), name) {
                return Some(i);
            }
            i = i + 1;
        }
        assert(!vs.contains(name@));
        None
    }

    /// Whether `name` is held.
    pub fn contains(&self, name: &str) -> (r: bool)
        ensures
            r == self.view().contains(name@),
    {
        match self.position(name) {
            Some(i) => {
                assert(name_views(self.names@)[i as int] == name@);
                true
            },
            None => false,
        }
    }

    /// Holds `name`.
    pub fn insert(&mut self, name: String)
        requires
            old(self).wf(),
        ensures
            final(self).wf(),
            final(self).view() == old(self).view().insert(name@),
    {
        if self.contains(name.as_str()) {
            assert(self.view().insert(name@) =~= self.view());
            return;
        }
        let ghost before = name_views(self.names@);
        let ghost nv = name@;
        self.names.push(name);
        assert(name_views(self.names@) =~= before.push(nv));
        proof {
            before.lemma_push_to_set_commute(nv);
            assert forall|a: int, b: int|
                0 <= a < before.push(nv).len() && 0 <= b < before.push(nv).len() && a != b implies
                before.push(nv)[a] != before.push(nv)[b] by {
                if a < before.len() && b < before.len() {
                } else if a < before.len() {
                    assert(before.contains(before[a]));
                } else if b < before.len() {
                    assert(before.contains(before[b]));
                }
            }
        }
    }

    /// Stops holding `name`.
    pub fn remove(&mut self, name: &str)
        requires
            old(self).wf(),
        ensures
            final(self).wf(),
            final(self).view() == old(self).view().remove(name@),
    {
        match self.position(name) {
            None => {
                assert(self.view().remove(name@) =~= self.view());
            },
            Some(i) => {
                let ghost before = name_views(self.names@);
                self.names.remove(i);
                let ghost after = name_views(self.names@);
                assert(after =~= before.remove(i as int));
                proof {
                    assert forall|k: Seq<char>| #[trigger] after.to_set().contains(k) == before.to_set().remove(
                        name@,
                    ).contains(k) by {
                        if after.contains(k) {
                            let j = choose|j: int| 0 <= j < after.len() && after[j] == k;
                            assert(before[i as int] == name@);
                            if j < i {
                                assert(before[j] == k);
                                assert(before[j] != before[i as int]);
                            } else {
                                assert(before[j + 1] == k);
                                assert(before[j + 1] != before[i as int]);
                            }
                            assert(before.contains(k));
                        }
                        if before.contains(k) && k != name@ {
                            let j = choose|j: int| 0 <= j < before.len() && before[j] == k;
                            assert(j != i);
                            if j < i {
                                assert(after[j] == k);
                            } else {
                                assert(after[j - 1] == k);
                            }
                        }
                    }
                    assert(after.to_set() =~= before.to_set().remove(name@));
                }
            },
        }
    }
}

/// One namespace: its name, the records owned here, the records mirrored.
pub struct NamespaceEntry {
    namespace: String,
    owned_names: NameSet,
    mirrored_names: NameSet,
}

/// Why a write was refused.
#[derive(Clone, Copy, Debug, PartialEq, Eq)]
pub enum WriteError {
    UnrecognizedNamespace,
}

/// Why a read was refused.
#[derive(Clone, Copy, Debug, PartialEq, Eq)]
pub enum ReadError {
    UnrecognizedNamespace,
}

/// Why a record could not be owned.
#[derive(Clone, Copy, Debug, PartialEq, Eq)]
pub enum OwnError {
    UnrecognizedNamespace,
    UnrecognizedName,
}

/// What a checked write does once its namespace is known.
#[derive(Clone, Copy, Debug, PartialEq, Eq)]
pub enum WritePlan {
    /// First wait until the current mirror of the record is dropped (when
    /// `wait_for_mirror`), then write the record and pass the write on to
    /// the siblings.
    WriteOwned { wait_for_mirror: bool },
    /// The record is owned elsewhere: its ownership must be asked for.
    RequestOwnership { wait_for_mirror: bool },
}

/// Each namespace's owned and mirrored names, in namespace order.
pub type StoreView = Seq<(Seq<char>, Set<Seq<char>>, Set<Seq<char>>)>;

/// The namespaces' names, in order.
pub open spec fn namespace_names(v: StoreView) -> Seq<Seq<char>> {
    v.map_values(|e: (Seq<char>, Set<Seq<char>>, Set<Seq<char>>)| e.0)
}

/// Where the first namespace with this name is.
pub open spec fn first_namespace(v: StoreView, ns: Seq<char>) -> Option<int> {
    namespace_names(v).index_of_first(ns)
}

/// The namespaces of a store and what this server knows of their records.
pub struct RecordStore {
    namespaces: Vec<NamespaceEntry>,
}

impl RecordStore {
    pub closed spec fn wf(&self) -> bool {
        forall|i: int|
            0 <= i < self.namespaces@.len() ==> (#[trigger] self.namespaces@[i]).owned_names.wf()
                && self.namespaces@[i].mirrored_names.wf()
    }

    pub closed spec fn view(&self) -> StoreView {
        self.namespaces@.map_values(
            |e: NamespaceEntry| (e.namespace@, e.owned_names.view(), e.mirrored_names.view()),
        )
    }

    /// The store of the given namespaces, each with the names it owns.
    pub fn open(namespaces: Vec<(String, Vec<String>)>) -> (r: RecordStore)
        ensures
            r.wf(),
            r.view().len() == namespaces@.len(),
            forall|i: int|
                #![trigger r.view()[i]]
                0 <= i < namespaces@.len() ==> r.view()[i].0 == namespaces@[i].0@ && r.view()[i].1
                    == name_views(namespaces@[i].1@).to_set() && r.view()[i].2 == Set::<
                    Seq<char>,
                >::empty(),
    {
        let mut out: Vec<NamespaceEntry> = Vec::new();
        let mut i: usize = 0;
        while i < namespaces.len()
            invariant
                i <= namespaces@.len(),
                out@.len() == i,
                forall|k: int|
                    0 <= k < i ==> (#[trigger] out@[k]).owned_names.wf() && out@[k].mirrored_names.wf()
                        && out@[k].namespace@ == namespaces@[k].0@ && out@[k].owned_names.view()
                        == name_views(namespaces@[k].1@).to_set() && out@[k].mirrored_names.view()
                        == Set::<Seq<char>>::empty(),
            decreases namespaces@.len() - i,
        {
            let mut owned = NameSet::new();
            let names = &namespaces[i].1;
            let mut j: usize = 0;
            while j < names.len()
                invariant
                    j <= names@.len(),
                    owned.wf(),
                    owned.view() == name_views(names@.subrange(0, j as int)).to_set(),
                decreases names@.len() - j,
            {
                let ghost before = name_views(names@.subrange(0, j as int));
                owned.insert(names[j].clone());
                proof {
                    assert(name_views(names@.subrange(0, j + 1)) =~= before.push(names@[j as int]@));
                    before.lemma_push_to_set_commute(names@[j as int]@);
                }
                j = j + 1;
            }
            assert(names@.subrange(0, names@.len() as int) =~= names@);
            out.push(
                NamespaceEntry {
                    namespace: namespaces[i].0.clone(),
                    owned_names: owned,
                    mirrored_names: NameSet::new(),
                },
            );
            i = i + 1;
        }
        let r = RecordStore { namespaces: out };
        assert forall|k: int| #![trigger r.view()[k]] 0 <= k < namespaces@.len() implies r.view()[k].0
            == namespaces@[k].0@ && r.view()[k].1 == name_views(namespaces@[k].1@).to_set()
            && r.view()[k].2 == Set::<Seq<char>>::empty() by {
            assert(out@[k].owned_names.wf());
        }
        r
    }

    fn find(&self, ns: &str) -> (r: Option<usize>)
        ensures
            match r {
                Some(i) => first_namespace(self.view(), ns@) == Some(i as int) && i < self.namespaces@.len(),
                None => first_namespace(self.view(), ns@) is None,
            },
    {
        let ghost names = namespace_names(self.view());
        proof {
            names.index_of_first_ensures(ns@);
        }
        let mut i: usize = 0;
        while i < self.namespaces.len()
            invariant
                i <= self.namespaces@.len(),
                names == namespace_names(self.view()),
                names.len() == self.namespaces@.len(),
                forall|j: int| 0 <= j < i ==> names[j] != ns@,
            decreases self.namespaces@.len() - i,
        {
            if str_is(self.namespaces[i].namespace.as_str(), ns) {
                proof {
                    names.index_of_first_ensures(ns@);
                    assert(names[i as int] == ns@);
                    assert(names.contains(ns@));
                    let c = names.index_of_first(ns@).unwrap();
                    if c < i {
                        assert(names[c] != ns@);
                    } else if c > i {
                        assert(names[i as int] != ns@);
                    }
                }
                return Some(i);
            }
            i = i + 1;
        }
        proof {
            names.index_of_first_ensures(ns@);
            if names.contains(ns@) {
                let k = choose|k: int| 0 <= k < names.len() && names[k] == ns@;
                assert(names[k] != ns@);
            }
        }
        None
    }

    /// Whether this server owns record `name` of namespace `ns`; no record
    /// of an unknown namespace is owned.
    pub fn is_record_owned(&self, ns: &str, name: &str) -> (r: bool)
        requires
            self.wf(),
        ensures
            r == match first_namespace(self.view(), ns@) {
                Some(i) => self.view()[i].1.contains(name@),
                None => false,
            },
    {
        match self.find(ns) {
            None => false,
            Some(i) => self.namespaces[i].owned_names.contains(name),
        }
    }

    /// What a checked write of record `name` in namespace `ns` does.
    pub fn write_plan(&self, ns: &str, name: &str) -> (r: Result<WritePlan, WriteError>)
        requires
            self.wf(),
        ensures
            match first_namespace(self.view(), ns@) {
                None => r == Err::<WritePlan, WriteError>(WriteError::UnrecognizedNamespace),
                Some(i) => if self.view()[i].1.contains(name@) {
                    r == Ok::<WritePlan, WriteError>(
                        WritePlan::WriteOwned { wait_for_mirror: self.view()[i].2.contains(name@) },
                    )
                } else {
                    r == Ok::<WritePlan, WriteError>(
                        WritePlan::RequestOwnership {
                            wait_for_mirror: self.view()[i].2.contains(name@),
                        },
                    )
                },
            },
    {
        match self.find(ns) {
            None => Err(WriteError::UnrecognizedNamespace),
            Some(i) => {
                let mirrored = self.namespaces[i].mirrored_names.contains(name);
                if self.namespaces[i].owned_names.contains(name) {
                    Ok(WritePlan::WriteOwned { wait_for_mirror: mirrored })
                } else {
                    Ok(WritePlan::RequestOwnership { wait_for_mirror: mirrored })
                }
            },
        }
    }

    fn update_entry(&mut self, i: usize, owned: bool, name: String, add: bool)
        requires
            old(self).wf(),
            i < old(self).namespaces@.len(),
        ensures
            final(self).wf(),
            final(self).view() == old(self).view().update(
                i as int,
                if owned {
                    (
                        old(self).view()[i as int].0,
                        if add {
                            old(self).view()[i as int].1.insert(name@)
                        } else {
                            old(self).view()[i as int].1.remove(name@)
                        },
                        old(self).view()[i as int].2,
                    )
                } else {
                    (
                        old(self).view()[i as int].0,
                        old(self).view()[i as int].1,
                        if add {
                            old(self).view()[i as int].2.insert(name@)
                        } else {
                            old(self).view()[i as int].2.remove(name@)
                        },
                    )
                },
            ),
    {
        let mut entries: Vec<NamespaceEntry> = Vec::new();
        std::mem::swap(&mut entries, &mut self.namespaces);
        let ghost before = entries@;
        let mut entry = entries.remove(i);
        let ghost old_entry = entry;
        if owned {
            if add {
                entry.owned_names.insert(name);
            } else {
                entry.owned_names.remove(name.as_str());
            }
        } else {
            if add {
                entry.mirrored_names.insert(name);
            } else {
                entry.mirrored_names.remove(name.as_str());
            }
        }
        entries.insert(i, entry);
        assert(entries@ =~= before.update(i as int, entries@[i as int]));
        self.namespaces = entries;
        assert(self.view() =~= old(self).view().update(i as int, self.view()[i as int]));
    }

    /// Takes ownership of record `name` in namespace `ns`, given whether
    /// storage holds such a record: an unknown record or namespace is
    /// refused.
    pub fn own_record(&mut self, ns: &str, name: String, record_exists: bool) -> (r: Result<(), OwnError>)
        requires
            old(self).wf(),
        ensures
            final(self).wf(),
            !record_exists ==> r == Err::<(), OwnError>(OwnError::UnrecognizedName) && final(self).view()
                == old(self).view(),
            record_exists ==> match first_namespace(old(self).view(), ns@) {
                None => r == Err::<(), OwnError>(OwnError::UnrecognizedNamespace) && final(self).view()
                    == old(self).view(),
                Some(i) => r is Ok && final(self).view() == old(self).view().update(
                    i,
                    (old(self).view()[i].0, old(self).view()[i].1.insert(name@), old(self).view()[i].2),
                ),
            },
    {
        if !record_exists {
            return Err(OwnError::UnrecognizedName);
        }
        match self.find(ns) {
            None => Err(OwnError::UnrecognizedNamespace),
            Some(i) => {
                self.update_entry(i, true, name, true);
                Ok(())
            },
        }
    }

    /// Starts mirroring record `name` of namespace `ns`; gives whether it
    /// was mirrored already, in which case the caller first waits until
    /// that mirror is dropped.
    pub fn start_mirror(&mut self, ns: &str, name: String) -> (r: Result<bool, ReadError>)
        requires
            old(self).wf(),
        ensures
            final(self).wf(),
            match first_namespace(old(self).view(), ns@) {
                None => r == Err::<bool, ReadError>(ReadError::UnrecognizedNamespace) && final(self).view()
                    == old(self).view(),
                Some(i) => r == Ok::<bool, ReadError>(old(self).view()[i].2.contains(name@)) && final(self).view() == old(self).view().update(
                    i,
                    (old(self).view()[i].0, old(self).view()[i].1, old(self).view()[i].2.insert(name@)),
                ),
            },
    {
        match self.find(ns) {
            None => Err(ReadError::UnrecognizedNamespace),
            Some(i) => {
                let was = self.namespaces[i].mirrored_names.contains(name.as_str());
                self.update_entry(i, false, name, true);
                Ok(was)
            },
        }
    }

    /// Stops mirroring record `name` of namespace `ns`; an unknown
    /// namespace changes nothing.
    pub fn drop_mirrored_data(&mut self, ns: &str, name: &str)
        requires
            old(self).wf(),
        ensures
            final(self).wf(),
            match first_namespace(old(self).view(), ns@) {
                None => final(self).view() == old(self).view(),
                Some(i) => final(self).view() == old(self).view().update(
                    i,
                    (old(self).view()[i].0, old(self).view()[i].1, old(self).view()[i].2.remove(name@)),
                ),
            },
    {
        match self.find(ns) {
            None => {},
            Some(i) => {
                self.update_entry(i, false, name.to_owned(), false);
            },
        }
    }
}

/// Once a record is owned, a checked write of it in the same namespace is
/// carried out here.
pub proof fn law_owned_record_is_written_here(v: StoreView, ns: Seq<char>, name: Seq<char>)
    requires
        first_namespace(v, ns) is Some,
    ensures
        ({
            let i = first_namespace(v, ns).unwrap();
            let w = v.update(i, (v[i].0, v[i].1.insert(name), v[i].2));
            first_namespace(w, ns) == Some(i) && w[i].1.contains(name)
        }),
{
    namespace_names(v).index_of_first_ensures(ns);
    let i = first_namespace(v, ns).unwrap();
    let w = v.update(i, (v[i].0, v[i].1.insert(name), v[i].2));
    assert(namespace_names(w) =~= namespace_names(v));
}

/// The storage segment that lists the names a namespace owns.
pub fn owned_segment(ns: &str) -> (r: String)
    ensures
        r@ == seq!['_'] + ns@ + "_owned"@,
{
    proof {
        reveal_strlit("_");
    }
    String::from_str("_").concat(ns).concat("_owned")
}

/// The storage segment that holds a namespace's keys.
pub fn keys_segment(ns: &str) -> (r: String)
    ensures
        r@ == seq!['_'] + ns@ + "_keys"@,
{
    proof {
        reveal_strlit("_");
    }
    String::from_str("_").concat(ns).concat("_keys")
}

/// A namespace name may be taken when it does not start with an
/// underscore (those name the store's own segments) and is not taken yet.
pub fn namespace_is_available(ns: &str, taken: &Vec<String>) -> (r: bool)
    ensures
        r == (!(ns@.len() > 0 && ns@[0] == '_') && !name_views(taken@).contains(ns@)),
{
    if ns.unicode_len() > 0 && ns.get_char(0) == '_' {
        return false;
    }
    let mut i: usize = 0;
    while i < taken.len()
        invariant
            i <= taken@.len(),
            forall|k: int| 0 <= k < i ==> name_views(taken@)[k] != ns@,
        decreases taken@.len() - i,
    {
        if str_is(taken[i].as_str(), ns) {
            assert(name_views(taken@)[i as int] == ns@);
            return false;
        }
        i = i + 1;
    }
    true
}

/// The message that passes an owned record's new bytes on to the
/// siblings: `OwnedWrite`, a zero byte, then the bytes.
pub fn owned_write_message(data: &[u8]) -> (r: Vec<u8>)
    ensures
        r@ == seq![79u8, 119u8, 110u8, 101u8, 100u8, 87u8, 114u8, 105u8, 116u8, 101u8, 0u8] + data@,
{
    let mut out: Vec<u8> = Vec::new();
    out.push(79u8);
    out.push(119u8);
    out.push(110u8);
    out.push(101u8);
    out.push(100u8);
    out.push(87u8);
    out.push(114u8);
    out.push(105u8);
    out.push(116u8);
    out.push(101u8);
    out.push(0u8);
    let ghost head = out@;
    let mut i: usize = 0;
    while i < data.len()
        invariant
            i <= data@.len(),
            out@ == head + data@.subrange(0, i as int),
        decreases data@.len() - i,
    {
        out.push(data[i]);
        assert(head + data@.subrange(0, i + 1) =~= (head + data@.subrange(0, i as int)).push(data@[i as int]));
        i = i + 1;
    }
    assert(data@.subrange(0, data@.len() as int) =~= data@);
    out
}

} // verus!
