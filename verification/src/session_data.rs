use vstd::prelude::*;
use vstd::pervasive::VecAdditionalExecFns;
use crate::assoc::{
    has_key, key_index, keys_unique, lemma_key_absent, lemma_key_at, lemma_map_of_empty,
    lemma_map_of_push, lemma_map_of_remove, lemma_map_of_update, map_of,
};

verus! {

/// The opaque key/value payload carried inside a session record. The store
/// never interprets it; the CSRF guard keeps its token under a fixed key in
/// it. Abstractly it is a finite map from key text to value text.
#[derive(Debug, PartialEq)]
pub struct SessionData {
    entries: Vec<(String, String)>,
}

impl View for SessionData {
    type V = Map<Seq<char>, Seq<char>>;

    open spec fn view(&self) -> Map<Seq<char>, Seq<char>> {
        map_of(self.kvs())
    }
}

impl SessionData {
    /// The pairs as the codec writes them out, in order.
    pub closed spec fn kvs(self) -> Seq<(Seq<char>, Seq<char>)> {
        self.entries.deep_view()
    }

    /// Well-formed: no key occurs twice.
    pub open spec fn wf(self) -> bool {
        keys_unique(self.kvs())
    }

    /// The empty payload.
    pub fn new() -> (r: SessionData)
        ensures
            r.wf(),
            r@ == Map::<Seq<char>, Seq<char>>::empty(),
            r.kvs().len() == 0,
    {
        let entries: Vec<(String, String)> = Vec::new();
        let r = SessionData { entries };
        proof {
            lemma_map_of_empty(r.kvs());
        }
        r
    }

    /// The position of the pair that carries `key`, if any.
    fn index_of_key(&self, key: &String) -> (r: Option<usize>)
        ensures
            match r {
                Some(i) => i < self.kvs().len() && self.kvs()[i as int].0 == key@,
                None => !has_key(self.kvs(), key@),
            },
    {
        let n = self.entries.len();
        let mut i: usize = 0;
        while i < n
            invariant
                n == self.entries@.len(),
                i <= n,
                forall|j: int| 0 <= j < i ==> self.kvs()[j].0 != key@,
            decreases n - i,
        {
            proof {
                assert(self.kvs()[i as int] == (self.entries@[i as int].0@, self.entries@[
                    i as int
                ].1@));
            }
            if self.entries[i].0 == *key {
                return Some(i);
            }
            i += 1;
        }
        proof {
            lemma_key_absent(self.kvs(), key@);
        }
        None
    }

    /// Look the value for `key` up.
    pub fn get<'a>(&'a self, key: &String) -> (r: Option<&'a String>)
        requires
            self.wf(),
        ensures
            match r {
                Some(v) => self@.contains_key(key@) && v@ == self@[key@],
                None => !self@.contains_key(key@),
            },
    {
        match self.index_of_key(key) {
            Some(i) => {
                proof {
                    lemma_key_at(self.kvs(), i as int);
                    assert(self.kvs()[i as int] == (self.entries@[i as int].0@, self.entries@[
                        i as int
                    ].1@));
                }
                Some(&self.entries[i].1)
            },
            None => {
                proof {
                    assert(!self@.contains_key(key@));
                }
                None
            },
        }
    }

    /// Bind `key` to `value`, replacing any earlier binding.
    pub fn insert(&mut self, key: String, value: String)
        requires
            old(self).wf(),
        ensures
            final(self).wf(),
            final(self)@ == old(self)@.insert(key@, value@),
    {
        let ghost kv0 = self.kvs();
        match self.index_of_key(&key) {
            Some(i) => {
                self.entries.set(i, (key, value));
                proof {
                    assert(self.kvs() =~= kv0.update(i as int, (key@, value@)));
                    lemma_map_of_update(kv0, i as int, key@, value@);
                }
            },
            None => {
                self.entries.push((key, value));
                proof {
                    assert(self.kvs() =~= kv0.push((key@, value@)));
                    lemma_map_of_push(kv0, key@, value@);
                }
            },
        }
    }

    /// Drop the binding for `key`; a no-op when none exists.
    pub fn remove(&mut self, key: &String)
        requires
            old(self).wf(),
        ensures
            final(self).wf(),
            final(self)@ == old(self)@.remove(key@),
    {
        let ghost kv0 = self.kvs();
        match self.index_of_key(key) {
            Some(i) => {
                self.entries.remove(i);
                proof {
                    assert(self.kvs() =~= kv0.remove(i as int));
                    lemma_map_of_remove(kv0, i as int);
                }
            },
            None => {
                proof {
                    assert(final(self)@ =~= old(self)@.remove(key@));
                }
            },
        }
    }

    /// The pairs in codec order, for writing the payload out.
    pub(crate) fn raw_entries(&self) -> (r: &Vec<(String, String)>)
        ensures
            r.deep_view() == self.kvs(),
    {
        &self.entries
    }

    /// Rebuild a payload from decoded pairs; a blob whose keys repeat is
    /// rejected, so every payload handed out is well formed.
    pub fn from_entries(entries: Vec<(String, String)>) -> (r: Option<SessionData>)
        ensures
            match r {
                Some(d) => keys_unique(entries.deep_view()) && d.wf() && d.kvs()
                    == entries.deep_view(),
                None => !keys_unique(entries.deep_view()),
            },
    {
        let ghost kv = entries.deep_view();
        let n = entries.len();
        let mut i: usize = 0;
        while i < n
            invariant
                n == entries@.len(),
                kv == entries.deep_view(),
                i <= n,
                forall|p: int, q: int| 0 <= p < q < n && p < i ==> kv[p].0 != kv[q].0,
            decreases n - i,
        {
            let mut j: usize = i + 1;
            while j < n
                invariant
                    n == entries@.len(),
                    kv == entries.deep_view(),
                    i < j <= n,
                    forall|q: int| i < q < j ==> kv[i as int].0 != kv[q].0,
                decreases n - j,
            {
                proof {
                    assert(kv[i as int] == (entries@[i as int].0@, entries@[i as int].1@));
                    assert(kv[j as int] == (entries@[j as int].0@, entries@[j as int].1@));
                }
                if entries[i].0 == entries[j].0 {
                    proof {
                        assert(kv[i as int].0 == kv[j as int].0);
                        assert(!keys_unique(kv));
                    }
                    return None;
                }
                j += 1;
            }
            i += 1;
        }
        Some(SessionData { entries })
    }
}

impl Clone for SessionData {
    /// A clone carries the same pairs, so it denotes the same map.
    fn clone(&self) -> (r: Self)
        ensures
            r.kvs() == self.kvs(),
            r@ == self@,
    {
        let n = self.entries.len();
        let mut entries: Vec<(String, String)> = Vec::new();
        let mut i: usize = 0;
        while i < n
            invariant
                n == self.entries@.len(),
                i <= n,
                entries@ == self.entries@.subrange(0, i as int),
            decreases n - i,
        {
            let p = &self.entries[i];
            entries.push((p.0.clone(), p.1.clone()));
            proof {
                assert(entries@ =~= self.entries@.subrange(0, i + 1 as int));
            }
            i += 1;
        }
        proof {
            assert(entries@ =~= self.entries@);
        }
        SessionData { entries }
    }
}

} // verus!
