//! Cells: what is monitored has a key, and a table holds one value for a key.

use crate::check::CheckResult;
use crate::text::same_text;
use vstd::prelude::*;
use vstd::string::*;

verus! {

/// The key of a cell: a host, or a service of a host.
#[derive(Debug, Hash, PartialEq, Eq)]
pub enum CellKey {
    Host(String),
    Service { host: String, service: String },
}

/// A `CellKey` with its names as characters.
pub enum CellId {
    Host(Seq<char>),
    Service { host: Seq<char>, service: Seq<char> },
}

impl View for CellKey {
    type V = CellId;

    open spec fn view(&self) -> CellId {
        match *self {
            CellKey::Host(name) => CellId::Host(name@),
            CellKey::Service { host, service } => CellId::Service {
                host: host@,
                service: service@,
            },
        }
    }
}

impl CellId {
    /// How a cell is labelled: by its host, and its service if it is one.
    pub open spec fn label(self) -> Seq<char> {
        match self {
            CellId::Host(name) => name,
            CellId::Service { host, service } => host + "/"@ + service,
        }
    }
}

impl Clone for CellKey {
    fn clone(&self) -> (copy: Self)
        ensures
            copy@ == self@,
    {
        match self {
            CellKey::Host(name) => CellKey::Host(name.clone()),
            CellKey::Service { host, service } => CellKey::Service {
                host: host.clone(),
                service: service.clone(),
            },
        }
    }
}

impl CellKey {
    /// Writes the label of the cell.
    pub fn label(&self) -> (label: String)
        ensures
            label@ == self@.label(),
            match *self {
                CellKey::Host(name) => label@ == name@,
                CellKey::Service { host, service } => label@ == host@ + "/"@ + service@,
            },
    {
        match self {
            CellKey::Host(name) => name.clone(),
            CellKey::Service { host, service } => host.clone().concat("/").concat(service.as_str()),
        }
    }

    /// Tells whether two keys are of one cell.
    pub fn same(&self, other: &CellKey) -> (answer: bool)
        ensures
            answer == (self@ == other@),
            match (*self, *other) {
                (CellKey::Host(a), CellKey::Host(b)) => answer == (a@ == b@),
                (
                    CellKey::Service { host: a, service: s },
                    CellKey::Service { host: b, service: t },
                ) => answer == (a@ == b@ && s@ == t@),
                _ => !answer,
            },
    {
        match (self, other) {
            (CellKey::Host(a), CellKey::Host(b)) => same_text(a, b),
            (
                CellKey::Service { host: a, service: s },
                CellKey::Service { host: b, service: t },
            ) => same_text(a, b) && same_text(s, t),
            _ => false,
        }
    }
}

/// The keys as they stand in a list.
pub open spec fn ids(keys: Seq<CellKey>) -> Seq<CellId> {
    keys.map_values(|key: CellKey| key@)
}

pub(crate) proof fn ids_push(keys: Seq<CellKey>, key: CellKey)
    ensures
        ids(keys.push(key)) == ids(keys).push(key@),
{
    assert(ids(keys.push(key)) =~= ids(keys).push(key@));
}

/// Copies a list of keys.
pub fn copy_keys(keys: &Vec<CellKey>) -> (copy: Vec<CellKey>)
    ensures
        ids(copy@) == ids(keys@),
{
    let mut copy: Vec<CellKey> = Vec::new();
    let mut i: usize = 0;
    while i < keys.len()
        invariant
            i <= keys@.len(),
            copy@.len() == i,
            forall|j: int| 0 <= j < i ==> (#[trigger] copy@[j])@ == keys@[j]@,
        decreases keys@.len() - i,
    {
        copy.push(keys[i].clone());
        i = i + 1;
    }
    assert(ids(copy@) =~= ids(keys@));
    copy
}

// ------------------------------------------------------------------------ tables

/// A table with at most one value for a key.
#[derive(Debug)]
pub struct CellTable<V> {
    keys: Vec<CellKey>,
    values: Vec<V>,
}

impl<V> CellTable<V> {
    /// Whether every key has one value, and no key stands in the table twice.
    pub closed spec fn wf(self) -> bool {
        &&& self.keys@.len() == self.values@.len()
        &&& forall|i: int, j: int|
            0 <= i < j < self.keys@.len() ==> (#[trigger] self.keys@[i])@ != (
            #[trigger] self.keys@[j])@
    }

    spec fn place(self, key: CellId, i: int) -> bool {
        0 <= i < self.keys@.len() && self.keys@[i]@ == key
    }
}

impl<V> View for CellTable<V> {
    type V = Map<CellId, V>;

    closed spec fn view(&self) -> Map<CellId, V> {
        Map::new(
            |key: CellId| exists|i: int| self.place(key, i),
            |key: CellId| self.values@[choose|i: int| self.place(key, i)],
        )
    }
}

impl<V> CellTable<V> {
    proof fn at(self, i: int)
        requires
            self.wf(),
            0 <= i < self.keys@.len(),
        ensures
            self@.contains_key(self.keys@[i]@),
            self@[self.keys@[i]@] == self.values@[i],
    {
        let key = self.keys@[i]@;
        assert(self.place(key, i));
        let k = choose|k: int| self.place(key, k);
        assert(self.place(key, k));
        assert(k == i);
    }

    /// A table without values.
    pub fn new() -> (table: Self)
        ensures
            table.wf(),
            table@ == Map::<CellId, V>::empty(),
    {
        let table = CellTable { keys: Vec::new(), values: Vec::new() };
        assert(table@ =~= Map::<CellId, V>::empty());
        table
    }

    fn find(&self, key: &CellKey) -> (place: Option<usize>)
        requires
            self.wf(),
        ensures
            match place {
                Some(i) => i < self.keys@.len() && self.keys@[i as int]@ == key@ && self@.contains_key(
                    key@,
                ) && self@[key@] == self.values@[i as int],
                None => !self@.contains_key(key@),
            },
    {
        let mut i: usize = 0;
        while i < self.keys.len()
            invariant
                self.wf(),
                i <= self.keys@.len(),
                forall|j: int| 0 <= j < i ==> (#[trigger] self.keys@[j])@ != key@,
            decreases self.keys@.len() - i,
        {
            if self.keys[i].same(key) {
                proof {
                    self.at(i as int);
                }
                return Some(i);
            }
            i = i + 1;
        }
        None
    }

    /// The value for a key.
    pub fn get(&self, key: &CellKey) -> (value: Option<&V>)
        requires
            self.wf(),
        ensures
            value is Some == self@.contains_key(key@),
            value matches Some(v) ==> *v == self@[key@],
    {
        match self.find(key) {
            Some(i) => Some(&self.values[i]),
            None => None,
        }
    }

    /// Tells whether there is a value for a key.
    pub fn contains_key(&self, key: &CellKey) -> (answer: bool)
        requires
            self.wf(),
        ensures
            answer == self@.contains_key(key@),
    {
        self.find(key).is_some()
    }

    /// Tells whether the table holds no value.
    pub fn is_empty(&self) -> (answer: bool)
        requires
            self.wf(),
        ensures
            answer == (self@ == Map::<CellId, V>::empty()),
    {
        proof {
            if self.keys@.len() > 0 {
                self.at(0);
            } else {
                assert(self@ =~= Map::<CellId, V>::empty());
            }
        }
        self.keys.len() == 0
    }

    /// Puts a value in for a key, in place of the one that was there.
    pub fn insert(&mut self, key: CellKey, value: V)
        requires
            old(self).wf(),
        ensures
            final(self).wf(),
            final(self)@ == old(self)@.insert(key@, value),
    {
        match self.find(&key) {
            Some(i) => {
                self.values[i] = value;
                proof {
                    assert(self@ =~= old(self)@.insert(key@, value)) by {
                        assert forall|k: CellId| #[trigger] self@.contains_key(k) == old(
                            self,
                        )@.insert(key@, value).contains_key(k) by {
                            if self@.contains_key(k) {
                                let j = choose|j: int| self.place(k, j);
                                assert(old(self).place(k, j));
                            }
                            if old(self)@.contains_key(k) {
                                let j = choose|j: int| old(self).place(k, j);
                                assert(self.place(k, j));
                            }
                        }
                        assert forall|k: CellId| #[trigger] self@.contains_key(k) implies self@[k]
                            == old(self)@.insert(key@, value)[k] by {
                            let j = choose|j: int| self.place(k, j);
                            self.at(j);
                            old(self).at(j);
                        }
                    }
                }
            },
            None => {
                let ghost id = key@;
                self.keys.push(key);
                self.values.push(value);
                proof {
                    assert(self.wf()) by {
                        assert forall|i: int, j: int| 0 <= i < j < self.keys@.len() implies (
                        #[trigger] self.keys@[i])@ != (#[trigger] self.keys@[j])@ by {
                            if j == old(self).keys@.len() {
                                old(self).at(i);
                            }
                        }
                    }
                    assert(self@ =~= old(self)@.insert(id, value)) by {
                        assert forall|k: CellId| #[trigger] self@.contains_key(k) == old(
                            self,
                        )@.insert(id, value).contains_key(k) by {
                            if self@.contains_key(k) {
                                let j = choose|j: int| self.place(k, j);
                                if j < old(self).keys@.len() {
                                    assert(old(self).place(k, j));
                                }
                            }
                            if old(self)@.contains_key(k) {
                                let j = choose|j: int| old(self).place(k, j);
                                assert(self.place(k, j));
                            }
                            if k == id {
                                assert(self.place(k, old(self).keys@.len() as int));
                            }
                        }
                        assert forall|k: CellId| #[trigger] self@.contains_key(k) implies self@[k]
                            == old(self)@.insert(id, value)[k] by {
                            let j = choose|j: int| self.place(k, j);
                            self.at(j);
                            if j < old(self).keys@.len() {
                                old(self).at(j);
                            }
                        }
                    }
                }
            },
        }
    }
}

/// The keys of a table whose value is `wanted`.
pub open spec fn keys_with<V>(table: Map<CellId, V>, wanted: V) -> Set<CellId> {
    table.dom().filter(|key: CellId| table[key] == wanted)
}

impl CellTable<CheckResult> {
    /// The keys among the first `n` whose value is `wanted`.
    spec fn keys_among(self, wanted: CheckResult, n: nat) -> Set<CellId> {
        Set::new(
            |key: CellId|
                exists|i: int| 0 <= i < n && self.place(key, i) && self.values@[i] == wanted,
        )
    }

    /// Counts the keys whose value is `wanted`.
    pub fn count(&self, wanted: CheckResult) -> (count: usize)
        requires
            self.wf(),
        ensures
            count == keys_with(self@, wanted).len(),
            keys_with(self@, wanted).finite(),
    {
        let mut n: usize = 0;
        let mut count: usize = 0;
        assert(self.keys_among(wanted, 0) =~= Set::empty());
        while n < self.values.len()
            invariant
                self.wf(),
                n <= self.values@.len(),
                count <= n,
                self.keys_among(wanted, n as nat).finite(),
                count == self.keys_among(wanted, n as nat).len(),
            decreases self.values@.len() - n,
        {
            let ghost before = self.keys_among(wanted, n as nat);
            let ghost after = self.keys_among(wanted, (n + 1) as nat);
            let ghost id = self.keys@[n as int]@;
            if self.values[n] == wanted {
                proof {
                    assert(self.place(id, n as int));
                    assert(!before.contains(id));
                    assert(after =~= before.insert(id)) by {
                        assert forall|key: CellId| #[trigger] after.contains(key) implies before.insert(id).contains(key) by {
                            let i = choose|i: int| 0 <= i < n + 1 && self.place(key, i) && self.values@[i] == wanted;
                            assert(i == n || before.contains(key));
                        }
                        assert forall|key: CellId| #[trigger] before.contains(key) implies after.contains(key) by {
                            let i = choose|i: int| 0 <= i < n && self.place(key, i) && self.values@[i] == wanted;
                            assert(0 <= i < n + 1 && self.place(key, i) && self.values@[i] == wanted);
                        }
                        assert(after.contains(id));
                    }
                }
                count = count + 1;
            } else {
                proof {
                    assert(after =~= before) by {
                        assert forall|key: CellId| #[trigger] after.contains(key) implies before.contains(key) by {
                            let i = choose|i: int| 0 <= i < n + 1 && self.place(key, i) && self.values@[i] == wanted;
                            assert(i < n);
                        }
                        assert forall|key: CellId| #[trigger] before.contains(key) implies after.contains(key) by {
                            let i = choose|i: int| 0 <= i < n && self.place(key, i) && self.values@[i] == wanted;
                            assert(0 <= i < n + 1 && self.place(key, i) && self.values@[i] == wanted);
                        }
                    }
                }
            }
            n = n + 1;
        }
        proof {
            let all = self.keys_among(wanted, n as nat);
            assert(all =~= keys_with(self@, wanted)) by {
                assert forall|key: CellId| #[trigger] all.contains(key) implies keys_with(self@, wanted).contains(key) by {
                    let i = choose|i: int| 0 <= i < n && self.place(key, i) && self.values@[i] == wanted;
                    self.at(i);
                }
                assert forall|key: CellId| #[trigger] keys_with(self@, wanted).contains(key) implies all.contains(key) by {
                    assert(self@.contains_key(key));
                    let i = choose|i: int| self.place(key, i);
                    self.at(i);
                    assert(0 <= i < n && self.place(key, i) && self.values@[i] == wanted);
                }
            }
        }
        count
    }
}

// ----------------------------------------------------------------------------- laws

/// Cells are told apart by their names: a host is never a service, two hosts are one
/// if they have one name, and two services if host and service have.
pub proof fn keys_go_by_names(a: CellKey, b: CellKey)
    ensures
        match (a, b) {
            (CellKey::Host(x), CellKey::Host(y)) => a@ == b@ <==> x@ == y@,
            (
                CellKey::Service { host: x, service: s },
                CellKey::Service { host: y, service: t },
            ) => a@ == b@ <==> x@ == y@ && s@ == t@,
            _ => a@ != b@,
        },
{
}

/// A host is labelled by its name, and a service by its host and its own name.
pub proof fn labels_are_names(host: Seq<char>, service: Seq<char>)
    ensures
        CellId::Host(host).label() == host,
        (CellId::Service { host, service }).label() == host + seq!['/'] + service,
{
    reveal_strlit("/");
    assert((CellId::Service { host, service }).label() =~= host + seq!['/'] + service);
}

/// The keys with a value are those of the table that have it, and no others.
pub proof fn keys_with_a_value<V>(table: Map<CellId, V>, wanted: V, id: CellId)
    ensures
        keys_with(table, wanted).contains(id) <==> table.contains_key(id) && table[id] == wanted,
{
}

/// A list of keys is read place by place.
pub proof fn ids_go_by_place(keys: Seq<CellKey>, i: int)
    requires
        0 <= i < keys.len(),
    ensures
        ids(keys).len() == keys.len(),
        ids(keys)[i] == keys[i]@,
{
}

}
