//! An in-memory store of named blobs with the semantics of the filesystem
//! the service runs on: unconditional write, read, delete, and an atomic
//! exclusive create.

use vstd::prelude::*;
use crate::allocator::{
    draw_suffixes, first_free, lemma_first_free, valid_draws, CreateResult, NameAllocator, Step, MAX_ATTEMPTS,
};
use crate::names::{candidate_spec, is_generated_name};
use crate::response::ErrorKind;

verus! {

/// Some entry of `es` is named `k`.
spec fn names_include(es: Seq<(String, Vec<u8>)>, k: Seq<char>) -> bool {
    exists|i: int| 0 <= i < es.len() && es[i].0@ == k
}

/// Named blobs, kept as a list of entries with distinct names.
pub struct MemStore {
    entries: Vec<(String, Vec<u8>)>,
    model: Ghost<Map<Seq<char>, Seq<u8>>>,
}

impl MemStore {
    /// The stored blobs, by name.
    pub closed spec fn blobs(&self) -> Map<Seq<char>, Seq<u8>> {
        self.model@
    }

    pub closed spec fn wf(&self) -> bool {
        &&& forall|i: int|
            0 <= i < self.entries@.len() ==> {
                &&& #[trigger] self.model@.contains_key(self.entries@[i].0@)
                &&& self.model@[self.entries@[i].0@] == self.entries@[i].1@
            }
        &&& forall|k: Seq<char>|
            #[trigger] self.model@.contains_key(k) ==> names_include(self.entries@, k)
        &&& forall|i: int, j: int|
            0 <= i < self.entries@.len() && 0 <= j < self.entries@.len() && i != j
                ==> self.entries@[i].0@ != self.entries@[j].0@
    }

    /// An empty store.
    pub fn new() -> (s: MemStore)
        ensures
            s.wf(),
            s.blobs() == Map::<Seq<char>, Seq<u8>>::empty(),
    {
        MemStore { entries: Vec::new(), model: Ghost(Map::empty()) }
    }

    /// The position of the entry named `name`, if there is one.
    fn find(&self, name: &String) -> (r: Option<usize>)
        requires
            self.wf(),
        ensures
            r matches Some(i) ==> i < self.entries@.len() && self.entries@[i as int].0@ == name@,
            r is None <==> !self.blobs().contains_key(name@),
    {
        let mut i: usize = 0;
        while i < self.entries.len()
            invariant
                self.wf(),
                i <= self.entries@.len(),
                forall|j: int| 0 <= j < i ==> self.entries@[j].0@ != name@,
            decreases self.entries@.len() - i,
        {
            if self.entries[i].0 == *name {
                assert(self.model@.contains_key(self.entries@[i as int].0@));
                return Some(i);
            }
            i = i + 1;
        }
        None
    }

    /// The contents of the blob named `name`, or `NotFound`.
    pub fn read(&self, name: &str) -> (r: Result<Vec<u8>, ErrorKind>)
        requires
            self.wf(),
        ensures
            self.blobs().contains_key(name@) ==> r is Ok && r->Ok_0@ == self.blobs()[name@],
            !self.blobs().contains_key(name@) ==> r == Err::<Vec<u8>, ErrorKind>(
                ErrorKind::NotFound,
            ),
    {
        let key = String::from_str(name);
        match self.find(&key) {
            Some(i) => {
                assert(self.model@.contains_key(self.entries@[i as int].0@));
                let v = self.entries[i].1.clone();
                assert(v@ =~= self.entries@[i as int].1@);
                Ok(v)
            },
            None => Err(ErrorKind::NotFound),
        }
    }
    /// Removes the entry at `i`, whose name is `name`.
    fn remove_entry(&mut self, i: usize, Ghost(name): Ghost<Seq<char>>)
        requires
            old(self).wf(),
            i < old(self).entries@.len(),
            old(self).entries@[i as int].0@ == name,
        ensures
            final(self).wf(),
            final(self).blobs() == old(self).blobs().remove(name),
    {
        let ghost es = self.entries@;
        self.entries.remove(i);
        proof {
            let m = self.model@.remove(name);
            let ns = self.entries@;
            assert forall|j: int| 0 <= j < ns.len() implies #[trigger] m.contains_key(ns[j].0@)
                && m[ns[j].0@] == ns[j].1@ by {
                let k = if j < i { j } else { j + 1 };
                assert(ns[j] == es[k]);
                assert(es[k].0@ != es[i as int].0@);
                assert(self.model@.contains_key(es[k].0@));
            }
            assert forall|k: Seq<char>| #[trigger] m.contains_key(k) implies names_include(ns, k) by {
                assert(self.model@.contains_key(k));
                let w = choose|w: int| 0 <= w < es.len() && es[w].0@ == k;
                assert(w != i);
                if w < i {
                    assert(ns[w].0@ == k);
                } else {
                    assert(ns[w - 1].0@ == k);
                }
            }
            assert forall|a: int, b: int|
                0 <= a < ns.len() && 0 <= b < ns.len() && a != b implies ns[a].0@ != ns[b].0@ by {
                let ka = if a < i { a } else { a + 1 };
                let kb = if b < i { b } else { b + 1 };
                assert(ns[a] == es[ka] && ns[b] == es[kb]);
            }
            self.model@ = m;
        }
    }

    /// Adds an entry under `name`, which no entry holds.
    fn add_entry(&mut self, name: String, payload: Vec<u8>)
        requires
            old(self).wf(),
            !old(self).blobs().contains_key(name@),
        ensures
            final(self).wf(),
            final(self).blobs() == old(self).blobs().insert(name@, payload@),
    {
        let ghost es = self.entries@;
        let ghost k0 = name@;
        let ghost p0 = payload@;
        self.entries.push((name, payload));
        proof {
            let m = self.model@.insert(k0, p0);
            let ns = self.entries@;
            assert forall|j: int| 0 <= j < ns.len() implies #[trigger] m.contains_key(ns[j].0@)
                && m[ns[j].0@] == ns[j].1@ by {
                if j < es.len() {
                    assert(ns[j] == es[j]);
                    assert(self.model@.contains_key(es[j].0@));
                }
            }
            assert forall|k: Seq<char>| #[trigger] m.contains_key(k) implies names_include(ns, k) by {
                if k == k0 {
                    assert(ns[es.len() as int].0@ == k);
                } else {
                    assert(self.model@.contains_key(k));
                    let w = choose|w: int| 0 <= w < es.len() && es[w].0@ == k;
                    assert(ns[w] == es[w]);
                }
            }
            assert forall|a: int, b: int|
                0 <= a < ns.len() && 0 <= b < ns.len() && a != b implies ns[a].0@ != ns[b].0@ by {
                if a < es.len() && b < es.len() {
                    assert(ns[a] == es[a] && ns[b] == es[b]);
                } else if a < es.len() {
                    assert(ns[a] == es[a]);
                    assert(self.model@.contains_key(es[a].0@));
                } else if b < es.len() {
                    assert(ns[b] == es[b]);
                    assert(self.model@.contains_key(es[b].0@));
                }
            }
            self.model@ = m;
        }
    }

    /// Removes the blob named `name`, or reports `NotFound` and changes
    /// nothing.
    pub fn delete(&mut self, name: &str) -> (r: Result<(), ErrorKind>)
        requires
            old(self).wf(),
        ensures
            final(self).wf(),
            old(self).blobs().contains_key(name@) ==> r is Ok && final(self).blobs() == old(self).blobs().remove(name@),
            !old(self).blobs().contains_key(name@) ==> r == Err::<(), ErrorKind>(
                ErrorKind::NotFound,
            ) && final(self).blobs() == old(self).blobs(),
    {
        let key = String::from_str(name);
        match self.find(&key) {
            Some(i) => {
                self.remove_entry(i, Ghost(name@));
                Ok(())
            },
            None => Err(ErrorKind::NotFound),
        }
    }

    /// Stores `payload` under `name`, replacing any blob of that name.
    pub fn write(&mut self, name: &str, payload: &Vec<u8>)
        requires
            old(self).wf(),
        ensures
            final(self).wf(),
            final(self).blobs() == old(self).blobs().insert(name@, payload@),
    {
        let key = String::from_str(name);
        match self.find(&key) {
            Some(i) => {
                self.remove_entry(i, Ghost(name@));
            },
            None => {},
        }
        let data = payload.clone();
        assert(data@ =~= payload@);
        self.add_entry(key, data);
        assert(self.blobs() =~= old(self).blobs().insert(name@, payload@));
    }

    /// Stores `payload` under `name` only if no blob has that name.
    pub fn create_exclusive(&mut self, name: &str, payload: &Vec<u8>) -> (r: CreateResult)
        requires
            old(self).wf(),
        ensures
            final(self).wf(),
            old(self).blobs().contains_key(name@) ==> r == CreateResult::AlreadyExists
                && final(self).blobs() == old(self).blobs(),
            !old(self).blobs().contains_key(name@) ==> r == CreateResult::Created && final(self).blobs() == old(self).blobs().insert(name@, payload@),
    {
        let key = String::from_str(name);
        match self.find(&key) {
            Some(_) => CreateResult::AlreadyExists,
            None => {
                let data = payload.clone();
                assert(data@ =~= payload@);
                self.add_entry(key, data);
                CreateResult::Created
            },
        }
    }
    /// Stores `payload` under a name generated from `prefix`, trying the
    /// suffixes of `draws` in order with an exclusive create: the first free
    /// candidate gets the payload. If every candidate is taken, nothing is
    /// stored and the result is `ExhaustedAttempts`.
    pub fn create_new_with(&mut self, prefix: &str, payload: &Vec<u8>, draws: Vec<u32>) -> (r: Result<String, ErrorKind>)
        requires
            old(self).wf(),
            valid_draws(draws@),
        ensures
            final(self).wf(),
            first_free(old(self).blobs().dom(), prefix@, draws@, 0) is Some ==> {
                let i = first_free(old(self).blobs().dom(), prefix@, draws@, 0)->Some_0;
                &&& r is Ok
                &&& r->Ok_0@ == candidate_spec(prefix@, draws@[i] as int)
                &&& final(self).blobs() == old(self).blobs().insert(r->Ok_0@, payload@)
            },
            first_free(old(self).blobs().dom(), prefix@, draws@, 0) is None ==> {
                &&& r == Err::<String, ErrorKind>(ErrorKind::ExhaustedAttempts)
                &&& final(self).blobs() == old(self).blobs()
            },
    {
        let ghost start = self.blobs();
        let mut alloc = NameAllocator::new(prefix, draws);
        let mut name = alloc.current();
        loop
            invariant
                self.wf(),
                alloc.wf(),
                alloc.prefix() == prefix@,
                alloc.draws() == draws@,
                name@ == alloc.candidate(),
                start == old(self).blobs(),
                self.blobs() == start,
                first_free(start.dom(), prefix@, draws@, 0) == first_free(
                    start.dom(),
                    prefix@,
                    draws@,
                    alloc.attempt(),
                ),
            decreases MAX_ATTEMPTS - alloc.attempt(),
        {
            let res = self.create_exclusive(name.as_str(), payload);
            match alloc.advance(res) {
                Step::Try(n) => {
                    name = n;
                },
                Step::Committed(n) => {
                    return Ok(n);
                },
                Step::Failed(e) => {
                    assert(first_free(start.dom(), prefix@, draws@, MAX_ATTEMPTS as int) is None);
                    return Err(e);
                },
            }
        }
    }

    /// Stores `payload` under a fresh name generated from `prefix` (the
    /// prefix, three random digits, `.txt`), with at most `MAX_ATTEMPTS`
    /// exclusive creates. The result is what `create_new_with` gives for some
    /// valid draws: on success the name was free before and now holds the
    /// payload; on failure nothing was stored. When no name of that form is
    /// taken, it succeeds.
    pub fn create_new(&mut self, prefix: &str, payload: &Vec<u8>) -> (r: Result<String, ErrorKind>)
        requires
            old(self).wf(),
        ensures
            final(self).wf(),
            r is Ok ==> {
                &&& is_generated_name(prefix@, r->Ok_0@)
                &&& !old(self).blobs().contains_key(r->Ok_0@)
                &&& final(self).blobs() == old(self).blobs().insert(r->Ok_0@, payload@)
            },
            r is Err ==> {
                &&& r == Err::<String, ErrorKind>(ErrorKind::ExhaustedAttempts)
                &&& final(self).blobs() == old(self).blobs()
            },
            exists|d: Seq<u32>|
                valid_draws(d) && match #[trigger] first_free(old(self).blobs().dom(), prefix@, d, 0) {
                    Some(i) => {
                        &&& r is Ok
                        &&& r->Ok_0@ == candidate_spec(prefix@, d[i] as int)
                        &&& final(self).blobs() == old(self).blobs().insert(r->Ok_0@, payload@)
                    },
                    None => {
                        &&& r == Err::<String, ErrorKind>(ErrorKind::ExhaustedAttempts)
                        &&& final(self).blobs() == old(self).blobs()
                    },
                },
            (forall|n: int|
                0 <= n < 1000 ==> !old(self).blobs().contains_key(
                    #[trigger] candidate_spec(prefix@, n),
                )) ==> r is Ok,
    {
        let draws = draw_suffixes();
        let ghost d = draws@;
        proof {
            lemma_first_free(self.blobs().dom(), prefix@, d, 0);
        }
        let r = self.create_new_with(prefix, payload, draws);
        proof {
            if r is Ok {
                let i = first_free(old(self).blobs().dom(), prefix@, d, 0)->Some_0;
                assert(0 <= d[i] < 1000);
                assert(r->Ok_0@ == candidate_spec(prefix@, d[i] as int));
            }
            assert(0 <= d[0] < 1000);
            assert(valid_draws(d));
        }
        r
    }
}

} // verus!
