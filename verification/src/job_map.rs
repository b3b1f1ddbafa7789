use crate::text::text_eq;
use vstd::prelude::*;

verus! {

/// The jobs that the scheduler has been given, by job id: for each the
/// 128-bit UUID under which the scheduler knows it.
pub struct JobMap {
    entries: Vec<(String, u128)>,
}

/// The job ids of `entries`, in order.
pub open spec fn entry_keys(entries: Seq<(String, u128)>) -> Seq<Seq<char>> {
    entries.map_values(|e: (String, u128)| e.0@)
}

/// The map that the entries stand for (with distinct keys, each key gives its
/// entry's UUID).
pub open spec fn entry_map(entries: Seq<(String, u128)>) -> Map<Seq<char>, u128> {
    Map::new(
        |k: Seq<char>| entry_keys(entries).contains(k),
        |k: Seq<char>| entries[entry_keys(entries).index_of(k)].1,
    )
}

/// With distinct keys, the entry stored at `i` is what the map gives for its
/// key.
proof fn lemma_entry(entries: Seq<(String, u128)>, i: int)
    requires
        entry_keys(entries).no_duplicates(),
        0 <= i < entries.len(),
    ensures
        entry_map(entries).contains_key(entries[i].0@),
        entry_map(entries)[entries[i].0@] == entries[i].1,
        entry_keys(entries)[i] == entries[i].0@,
{
    let k = entries[i].0@;
    assert(entry_keys(entries)[i] == k);
    assert(entry_keys(entries).contains(k));
    let j = entry_keys(entries).index_of(k);
    assert(entry_keys(entries)[j] == k);
}

impl JobMap {
    /// The job ids, in the order in which they are stored.
    pub closed spec fn keys(&self) -> Seq<Seq<char>> {
        entry_keys(self.entries@)
    }

    /// No job id is stored twice.
    #[verifier::type_invariant]
    closed spec fn ids_distinct(&self) -> bool {
        self.keys().no_duplicates()
    }

    /// The map holds finitely many jobs.
    pub proof fn lemma_dom_finite(&self)
        ensures
            self@.dom().finite(),
    {
        assert(self@.dom() =~= self.keys().to_set());
    }

    /// An empty map.
    pub fn new() -> (r: Self)
        ensures
            r@ == Map::<Seq<char>, u128>::empty(),
    {
        let r = JobMap { entries: Vec::new() };
        assert(r@ =~= Map::<Seq<char>, u128>::empty());
        r
    }

    /// Where `key` is stored, if it is.
    fn position(&self, key: &str) -> (r: Option<usize>)
        ensures
            r matches Some(i) ==> i < self.entries@.len() && self.keys()[i as int] == key@,
            r is None ==> !self.keys().contains(key@),
    {
        let mut i: usize = 0;
        while i < self.entries.len()
            invariant
                i <= self.entries@.len(),
                forall|j: int| 0 <= j < i ==> self.keys()[j] != key@,
            decreases self.entries@.len() - i,
        {
            if text_eq(self.entries[i].0.as_str(), key) {
                return Some(i);
            }
            i = i + 1;
        }
        None
    }

    /// The UUID of the job `key`, if the map has it.
    pub fn get(&self, key: &str) -> (r: Option<u128>)
        ensures
            r == (if self@.contains_key(key@) {
                Some(self@[key@])
            } else {
                None
            }),
    {
        proof {
            use_type_invariant(self);
        }
        match self.position(key) {
            Some(i) => {
                proof {
                    lemma_entry(self.entries@, i as int);
                }
                Some(self.entries[i].1)
            },
            None => None,
        }
    }

    /// Whether the map has the job `key`.
    pub fn contains_key(&self, key: &str) -> (r: bool)
        ensures
            r == self@.contains_key(key@),
    {
        self.get(key).is_some()
    }

    /// The number of jobs in the map.
    pub fn len(&self) -> (r: usize)
        ensures
            self@.dom().finite(),
            r == self@.len(),
    {
        proof {
            use_type_invariant(self);
            self.keys().unique_seq_to_set();
            assert(self@.dom() =~= self.keys().to_set());
        }
        self.entries.len()
    }

    /// Records the job `key` under `uuid`, in place of any earlier UUID.
    pub fn insert(&mut self, key: String, uuid: u128)
        ensures
            final(self)@ == old(self)@.insert(key@, uuid),
    {
        proof {
            use_type_invariant(&*self);
        }
        let pos = self.position(key.as_str());
        let ghost k = key@;
        let mut entries: Vec<(String, u128)> = Vec::new();
        std::mem::swap(&mut entries, &mut self.entries);
        let ghost old_entries = entries@;
        match pos {
            Some(i) => {
                entries.set(i, (key, uuid));
                proof {
                    let e = entries@;
                    assert(entry_keys(e) =~= entry_keys(old_entries));
                    assert forall|q: Seq<char>|
                        #![trigger entry_map(e).contains_key(q)]
                        entry_map(e).contains_key(q) == entry_map(old_entries).insert(
                            k,
                            uuid,
                        ).contains_key(q) by {}
                    assert forall|q: Seq<char>| #[trigger]
                        entry_map(e).contains_key(q) implies entry_map(e)[q] == entry_map(
                            old_entries,
                        ).insert(k, uuid)[q] by {
                        let j = entry_keys(e).index_of(q);
                        lemma_entry(e, j);
                        if j != i {
                            lemma_entry(old_entries, j);
                        }
                    }
                    assert(entry_map(e) =~= entry_map(old_entries).insert(k, uuid));
                }
            },
            None => {
                entries.push((key, uuid));
                proof {
                    let e = entries@;
                    let n = old_entries.len() as int;
                    assert(entry_keys(e) =~= entry_keys(old_entries).push(k));
                    assert(entry_keys(e)[n] == k);
                    assert forall|q: Seq<char>|
                        #![trigger entry_map(e).contains_key(q)]
                        entry_map(e).contains_key(q) == entry_map(old_entries).insert(
                            k,
                            uuid,
                        ).contains_key(q) by {
                        if entry_keys(old_entries).contains(q) {
                            let j = entry_keys(old_entries).index_of(q);
                            assert(entry_keys(e)[j] == q);
                        }
                        if entry_keys(e).contains(q) && q != k {
                            let j = entry_keys(e).index_of(q);
                            assert(entry_keys(old_entries)[j] == q);
                        }
                    }
                    assert forall|q: Seq<char>| #[trigger]
                        entry_map(e).contains_key(q) implies entry_map(e)[q] == entry_map(
                            old_entries,
                        ).insert(k, uuid)[q] by {
                        let j = entry_keys(e).index_of(q);
                        lemma_entry(e, j);
                        if j != n {
                            lemma_entry(old_entries, j);
                        }
                    }
                    assert(entry_map(e) =~= entry_map(old_entries).insert(k, uuid));
                }
            },
        }
        self.entries = entries;
    }

    /// Forgets the job `key`; gives back its UUID, if the map had it.
    pub fn remove(&mut self, key: &str) -> (r: Option<u128>)
        ensures
            final(self)@ == old(self)@.remove(key@),
            r == (if old(self)@.contains_key(key@) {
                Some(old(self)@[key@])
            } else {
                None
            }),
    {
        proof {
            use_type_invariant(&*self);
        }
        let ghost old_entries = self.entries@;
        match self.position(key) {
            Some(i) => {
                proof {
                    lemma_entry(old_entries, i as int);
                }
                let mut entries: Vec<(String, u128)> = Vec::new();
                std::mem::swap(&mut entries, &mut self.entries);
                let (_, uuid) = entries.remove(i);
                proof {
                    let e = entries@;
                    let k = key@;
                    assert(entry_keys(e) =~= entry_keys(old_entries).remove(i as int));
                    assert forall|q: Seq<char>|
                        #![trigger entry_map(e).contains_key(q)]
                        entry_map(e).contains_key(q) == entry_map(old_entries).remove(
                            k,
                        ).contains_key(q) by {
                        if entry_keys(old_entries).contains(q) && q != k {
                            let j = entry_keys(old_entries).index_of(q);
                            if j < i {
                                assert(entry_keys(e)[j] == q);
                            } else {
                                assert(entry_keys(e)[j - 1] == q);
                            }
                        }
                        if entry_keys(e).contains(q) {
                            let j = entry_keys(e).index_of(q);
                            if j < i {
                                assert(entry_keys(old_entries)[j] == q);
                            } else {
                                assert(entry_keys(old_entries)[j + 1] == q);
                            }
                        }
                    }
                    assert forall|q: Seq<char>| #[trigger]
                        entry_map(e).contains_key(q) implies entry_map(e)[q] == entry_map(
                            old_entries,
                        ).remove(k)[q] by {
                        let j = entry_keys(e).index_of(q);
                        lemma_entry(e, j);
                        if j < i {
                            lemma_entry(old_entries, j);
                        } else {
                            lemma_entry(old_entries, j + 1);
                        }
                    }
                    assert(entry_map(e) =~= entry_map(old_entries).remove(k));
                }
                self.entries = entries;
                Some(uuid)
            },
            None => {
                proof {
                    assert(!entry_map(old_entries).contains_key(key@));
                    assert(entry_map(old_entries) =~= entry_map(old_entries).remove(key@));
                }
                None
            },
        }
    }

    /// Every job of the map with its UUID, each job once.
    pub fn to_vec(&self) -> (r: Vec<(String, u128)>)
        ensures
            r@.map_values(|e: (String, u128)| e.0@).no_duplicates(),
            forall|i: int|
                0 <= i < r@.len() ==> self@.contains_key((#[trigger] r@[i]).0@) && self@[r@[i].0@]
                    == r@[i].1,
            forall|k: Seq<char>|
                #[trigger] self@.contains_key(k) ==> exists|i: int|
                    0 <= i < r@.len() && (#[trigger] r@[i]).0@ == k,
    {
        proof {
            use_type_invariant(self);
        }
        let mut r: Vec<(String, u128)> = Vec::new();
        let mut i: usize = 0;
        while i < self.entries.len()
            invariant
                self.keys().no_duplicates(),
                i <= self.entries@.len(),
                r@.len() == i,
                forall|j: int| 0 <= j < i ==> (#[trigger] r@[j]).0@ == self.entries@[j].0@ && r@[j].1
                    == self.entries@[j].1,
            decreases self.entries@.len() - i,
        {
            let entry = &self.entries[i];
            r.push((entry.0.clone(), entry.1));
            i = i + 1;
        }
        proof {
            assert(r@.map_values(|e: (String, u128)| e.0@) =~= self.keys());
            assert forall|j: int| 0 <= j < r@.len() implies self@.contains_key(
                (#[trigger] r@[j]).0@,
            ) && self@[r@[j].0@] == r@[j].1 by {
                lemma_entry(self.entries@, j);
            }
            assert forall|k: Seq<char>| #[trigger] self@.contains_key(k) implies exists|j: int|
                0 <= j < r@.len() && (#[trigger] r@[j]).0@ == k by {
                let j = self.keys().index_of(k);
                assert(r@[j].0@ == k);
            }
        }
        r
    }
}

/// A read after a write: once `insert(key, uuid)` has run, `get(key)` gives
/// `uuid`, and every other key gives what it gave before.
pub proof fn law_get_after_insert(
    before: Map<Seq<char>, u128>,
    key: Seq<char>,
    uuid: u128,
    other: Seq<char>,
)
    requires
        other != key,
    ensures
        before.insert(key, uuid).contains_key(key),
        before.insert(key, uuid)[key] == uuid,
        before.insert(key, uuid).contains_key(other) == before.contains_key(other),
        before.contains_key(other) ==> before.insert(key, uuid)[other] == before[other],
{
}

/// A read after a removal: once `remove(key)` has run, `get(key)` gives
/// nothing, and every other key gives what it gave before.
pub proof fn law_get_after_remove(before: Map<Seq<char>, u128>, key: Seq<char>, other: Seq<char>)
    requires
        other != key,
    ensures
        !before.remove(key).contains_key(key),
        before.remove(key).contains_key(other) == before.contains_key(other),
        before.contains_key(other) ==> before.remove(key)[other] == before[other],
{
}

impl View for JobMap {
    type V = Map<Seq<char>, u128>;

    closed spec fn view(&self) -> Map<Seq<char>, u128> {
        entry_map(self.entries@)
    }
}

} // verus!
