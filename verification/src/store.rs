//! In-memory model of the persistent store: an append-only mapping from
//! identifier to URL behind the same contract a durable backend offers
//! (existence check, atomic insert-or-reject, lookup, liveness probe).
//! A reachability flag stands for the connection to the backend, so the
//! unavailable paths can be exercised too.

use vstd::prelude::*;
use vstd::string::*;
use crate::errors::StoreError;

verus! {

pub struct MemStore {
    ids: Vec<String>,
    urls: Vec<String>,
    live: bool,
}

/// Whole-string equality of two string slices.
#[verifier::loop_isolation(false)]
fn str_eq(a: &str, b: &str) -> (r: bool)
    ensures
        r == (a@ == b@),
{
    let n = a.unicode_len();
    let m = b.unicode_len();
    if n != m {
        return false;
    }
    let mut i: usize = 0;
    while i < n
        invariant
            i <= n,
            n == a@.len() && n == b@.len(),
            forall|j: int| 0 <= j < i ==> a@[j] == b@[j],
        decreases n - i,
    {
        if a.get_char(i) != b.get_char(i) {
            return false;
        }
        i += 1;
    }
    proof {
        assert(a@ =~= b@);
    }
    true
}

impl MemStore {
    /// The stored mapping, as a map from identifier to URL.
    pub closed spec fn as_map(self) -> Map<Seq<char>, Seq<char>> {
        Map::new(
            |k: Seq<char>| exists|i: int| 0 <= i < self.ids@.len() && self.ids@[i]@ == k,
            |k: Seq<char>|
                self.urls@[choose|i: int| 0 <= i < self.ids@.len() && self.ids@[i]@ == k]@,
        )
    }

    /// Whether the backend can be reached.
    pub closed spec fn connected(self) -> bool {
        self.live
    }

    /// Identifiers are unique and each has exactly one URL.
    pub closed spec fn wf(self) -> bool {
        &&& self.ids@.len() == self.urls@.len()
        &&& forall|i: int, j: int|
            #![trigger self.ids@[i], self.ids@[j]]
            0 <= i < j < self.ids@.len() ==> self.ids@[i]@ != self.ids@[j]@
    }

    proof fn lemma_map_at(self, i: int)
        requires
            self.wf(),
            0 <= i < self.ids@.len(),
        ensures
            self.as_map().contains_key(self.ids@[i]@),
            self.as_map()[self.ids@[i]@] == self.urls@[i]@,
    {
        let k = self.ids@[i]@;
        assert(0 <= i < self.ids@.len() && self.ids@[i]@ == k);
        let j = choose|t: int| 0 <= t < self.ids@.len() && self.ids@[t]@ == k;
        if j != i {
            assert(self.ids@[if i < j { i } else { j }]@ != self.ids@[if i < j { j } else { i }]@);
        }
    }

    /// A fresh, reachable, empty store.
    pub fn new() -> (s: MemStore)
        ensures
            s.wf(),
            s.connected(),
            s.as_map() == Map::<Seq<char>, Seq<char>>::empty(),
    {
        let s = MemStore { ids: Vec::new(), urls: Vec::new(), live: true };
        proof {
            assert(s.as_map() =~= Map::<Seq<char>, Seq<char>>::empty());
        }
        s
    }

    /// True iff an entry with this identifier is stored; fails only when
    /// the backend cannot be reached.
    #[verifier::loop_isolation(false)]
    pub fn contains(&self, id: &str) -> (r: Result<bool, StoreError>)
        requires
            self.wf(),
        ensures
            match r {
                Ok(b) => self.connected() && b == self.as_map().contains_key(id@),
                Err(e) => !self.connected() && e == StoreError::Unavailable,
            },
    {
        if !self.live {
            return Err(StoreError::Unavailable);
        }
        let mut i: usize = 0;
        while i < self.ids.len()
            invariant
                i <= self.ids@.len(),
                forall|j: int| 0 <= j < i ==> self.ids@[j]@ != id@,
            decreases self.ids@.len() - i,
        {
            if str_eq(self.ids[i].as_str(), id) {
                proof {
                    self.lemma_map_at(i as int);
                }
                return Ok(true);
            }
            i += 1;
        }
        Ok(false)
    }

    /// Store a new mapping; reject an identifier that is already present
    /// rather than overwrite it.
    pub fn insert(&mut self, id: &str, url: &str) -> (r: Result<(), StoreError>)
        requires
            old(self).wf(),
        ensures
            final(self).wf(),
            final(self).connected() == old(self).connected(),
            match r {
                Ok(()) => old(self).connected() && !old(self).as_map().contains_key(id@)
                    && final(self).as_map() == old(self).as_map().insert(id@, url@),
                Err(StoreError::DuplicateKey) => old(self).connected() && old(
                    self,
                ).as_map().contains_key(id@) && *final(self) == *old(self),
                Err(StoreError::Unavailable) => !old(self).connected() && *final(self) == *old(
                    self,
                ),
            },
    {
        if !self.live {
            return Err(StoreError::Unavailable);
        }
        let present = match self.contains(id) {
            Ok(b) => b,
            Err(e) => {
                return Err(e);
            },
        };
        if present {
            return Err(StoreError::DuplicateKey);
        }
        let ghost pre = *self;
        self.ids.push(id.to_owned());
        self.urls.push(url.to_owned());
        proof {
            let post = *self;
            let n = pre.ids@.len() as int;
            assert forall|k: Seq<char>| #[trigger] pre.as_map().contains_key(k) implies
                post.as_map().contains_key(k) && post.as_map()[k] == pre.as_map()[k] by {
                let i = choose|i: int| 0 <= i < pre.ids@.len() && pre.ids@[i]@ == k;
                pre.lemma_map_at(i);
                post.lemma_map_at(i);
            }
            post.lemma_map_at(n);
            assert forall|k: Seq<char>| #[trigger] post.as_map().contains_key(k) && k != id@
                implies pre.as_map().contains_key(k) by {
                let i = choose|i: int| 0 <= i < post.ids@.len() && post.ids@[i]@ == k;
                pre.lemma_map_at(i);
            }
            assert(post.as_map() =~= pre.as_map().insert(id@, url@));
        }
        Ok(())
    }

    /// The stored URL for this identifier, or `None`; fails only when the
    /// backend cannot be reached.
    #[verifier::loop_isolation(false)]
    pub fn lookup(&self, id: &str) -> (r: Result<Option<String>, StoreError>)
        requires
            self.wf(),
        ensures
            match r {
                Ok(found) => self.connected() && match found {
                    Some(u) => self.as_map().contains_key(id@) && self.as_map()[id@] == u@,
                    None => !self.as_map().contains_key(id@),
                },
                Err(e) => !self.connected() && e == StoreError::Unavailable,
            },
    {
        if !self.live {
            return Err(StoreError::Unavailable);
        }
        let mut i: usize = 0;
        while i < self.ids.len()
            invariant
                i <= self.ids@.len(),
                forall|j: int| 0 <= j < i ==> self.ids@[j]@ != id@,
            decreases self.ids@.len() - i,
        {
            if str_eq(self.ids[i].as_str(), id) {
                proof {
                    self.lemma_map_at(i as int);
                }
                return Ok(Some(self.urls[i].clone()));
            }
            i += 1;
        }
        Ok(None)
    }

    /// Lightweight liveness probe.
    pub fn health_check(&self) -> (r: bool)
        ensures
            r == self.connected(),
    {
        self.live
    }

    /// Sever or restore the connection to the backend (for exercising the
    /// unavailable paths against this model).
    pub fn set_connected(&mut self, up: bool)
        ensures
            final(self).connected() == up,
            final(self).as_map() == old(self).as_map(),
            final(self).wf() == old(self).wf(),
    {
        let ghost pre = *self;
        self.live = up;
        proof {
            assert(self.as_map() =~= pre.as_map());
        }
    }
}

} // verus!
