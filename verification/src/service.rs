//! The shortlink service: create with collision retry, resolve, and the
//! liveness probe, over the configuration and the store.

use vstd::prelude::*;
use crate::alphabet::id_from;
use crate::alphabet::make_id;
use crate::alphabet::valid_id;
use crate::config::Config;
use crate::errors::Error;
use crate::errors::StoreError;
use crate::store::MemStore;
use crate::validate::validate_spec;
use crate::validate::validate_url;
use crate::validate::whitelist_view;

verus! {

/// The candidate identifier attempt `k` selects from the random values:
/// one symbol per value, values `k*len .. (k+1)*len`.
pub open spec fn candidate(rand: Seq<u64>, len: nat, k: int) -> Seq<char> {
    id_from(rand, k * (len as int), len)
}

/// The retry budget one create call has: how many whole candidates the
/// supplied random values yield.
pub open spec fn budget(rand: Seq<u64>, len: nat) -> int {
    rand.len() as int / len as int
}

/// The first attempt at or after `k` whose candidate is absent from `m`,
/// if any attempt within the budget is.
pub open spec fn first_fresh(
    m: Map<Seq<char>, Seq<char>>,
    rand: Seq<u64>,
    len: nat,
    k: int,
) -> Option<int>
    decreases budget(rand, len) - k
        when 0 <= k && len >= 1
{
    if k >= budget(rand, len) {
        None
    } else if !m.contains_key(candidate(rand, len, k)) {
        Some(k)
    } else {
        first_fresh(m, rand, len, k + 1)
    }
}

/// What `create` returns and how it changes the stored map, as a function
/// of the starting map `m`, the store's reachability `up`, the whitelist
/// `wl`, the identifier length `len`, the url and the random values.
pub open spec fn create_spec(
    m: Map<Seq<char>, Seq<char>>,
    up: bool,
    wl: Option<Seq<Seq<char>>>,
    len: nat,
    url: Seq<char>,
    rand: Seq<u64>,
) -> (Map<Seq<char>, Seq<char>>, Result<Seq<char>, Error>) {
    match validate_spec(wl, url) {
        Err(e) => (m, Err(e)),
        Ok(()) => if budget(rand, len) <= 0 {
            (m, Err(Error::IdSpaceExhausted))
        } else if !up {
            (m, Err(Error::StoreUnavailable))
        } else {
            match first_fresh(m, rand, len, 0) {
                None => (m, Err(Error::IdSpaceExhausted)),
                Some(k) => (m.insert(candidate(rand, len, k), url), Ok(candidate(rand, len, k))),
            }
        },
    }
}

/// What `resolve` returns for a given stored map and reachability.
pub open spec fn resolve_spec(m: Map<Seq<char>, Seq<char>>, up: bool, id: Seq<char>) -> Result<
    Seq<char>,
    Error,
> {
    if !up {
        Err(Error::StoreUnavailable)
    } else if m.contains_key(id) {
        Ok(m[id])
    } else {
        Err(Error::NotFound)
    }
}

/// A returned string abstracted to its view.
pub open spec fn result_view(r: Result<String, Error>) -> Result<Seq<char>, Error> {
    match r {
        Ok(s) => Ok(s@),
        Err(e) => Err(e),
    }
}

/// The shortlink service. It holds no state beyond its configuration and
/// its store.
pub struct Service {
    pub config: Config,
    pub store: MemStore,
}

impl Service {
    pub open spec fn wf(self) -> bool {
        self.config.wf() && self.store.wf()
    }

    pub open spec fn whitelist(self) -> Option<Seq<Seq<char>>> {
        whitelist_view(self.config.host_whitelist)
    }

    pub fn new(config: Config, store: MemStore) -> (s: Service)
        requires
            config.wf(),
            store.wf(),
        ensures
            s.wf(),
            s.config == config,
            s.store == store,
    {
        Service { config, store }
    }

    /// Validate the URL, then generate, check and insert candidate
    /// identifiers until one is fresh or the random values run out.
    #[verifier::loop_isolation(false)]
    pub fn create(&mut self, url: &str, rand: &Vec<u64>) -> (r: Result<String, Error>)
        requires
            old(self).wf(),
        ensures
            final(self).wf(),
            final(self).config == old(self).config,
            final(self).store.connected() == old(self).store.connected(),
            ({
                let (m2, rr) = create_spec(
                    old(self).store.as_map(),
                    old(self).store.connected(),
                    old(self).whitelist(),
                    old(self).config.id_length as nat,
                    url@,
                    rand@,
                );
                final(self).store.as_map() == m2 && result_view(r) == rr
            }),
            (match r {
                Ok(id) => valid_id(id@, old(self).config.id_length as nat),
                Err(_) => true,
            }),
    {
        let len = self.config.id_length;
        match validate_url(url, &self.config.host_whitelist) {
            Err(e) => {
                return Err(e);
            },
            Ok(()) => {},
        }
        let total = rand.len() / len;
        let ghost m0 = self.store.as_map();
        let mut k: usize = 0;
        while k < total
            invariant
                k <= total,
                self.config == old(self).config,
                self.store.wf(),
                self.store.as_map() == m0,
                self.store.connected() == old(self).store.connected(),
                k > 0 ==> self.store.connected(),
                first_fresh(m0, rand@, len as nat, 0) == first_fresh(m0, rand@, len as nat, k as int),
            decreases total - k,
        {
            proof {
                vstd::arithmetic::div_mod::lemma_fundamental_div_mod(
                    rand@.len() as int,
                    len as int,
                );
                assert((k as int) * (len as int) + (len as int) <= rand@.len() as int)
                    by (nonlinear_arith)
                    requires
                        k as int + 1 <= total as int,
                        len as int >= 1,
                        rand@.len() as int == (len as int) * (total as int) + rand@.len() as int
                            % (len as int),
                        rand@.len() as int % (len as int) >= 0,
                ;
            }
            let start = k * len;
            let id = make_id(len, rand, start);
            proof {
                assert(id@ == candidate(rand@, len as nat, k as int));
            }
            match self.store.contains(id.as_str()) {
                Err(_) => {
                    return Err(Error::StoreUnavailable);
                },
                Ok(true) => {
                    proof {
                        assert(first_fresh(m0, rand@, len as nat, k as int) == first_fresh(
                            m0,
                            rand@,
                            len as nat,
                            k as int + 1,
                        ));
                    }
                    k += 1;
                },
                Ok(false) => {
                    match self.store.insert(id.as_str(), url) {
                        Ok(()) => {
                            proof {
                                assert(first_fresh(m0, rand@, len as nat, k as int) == Some(
                                    k as int,
                                ));
                            }
                            return Ok(id);
                        },
                        Err(StoreError::DuplicateKey) => {
                            k += 1;
                        },
                        Err(StoreError::Unavailable) => {
                            return Err(Error::StoreUnavailable);
                        },
                    }
                },
            }
        }
        proof {
            assert(first_fresh(m0, rand@, len as nat, k as int) is None);
        }
        Err(Error::IdSpaceExhausted)
    }

    /// Look the identifier up; absence is `NotFound`.
    pub fn resolve(&self, id: &str) -> (r: Result<String, Error>)
        requires
            self.wf(),
        ensures
            result_view(r) == resolve_spec(self.store.as_map(), self.store.connected(), id@),
    {
        match self.store.lookup(id) {
            Ok(Some(u)) => Ok(u),
            Ok(None) => Err(Error::NotFound),
            Err(_) => Err(Error::StoreUnavailable),
        }
    }

    /// True exactly while the store is reachable.
    pub fn health_check(&self) -> (r: bool)
        ensures
            r == self.store.connected(),
    {
        self.store.health_check()
    }
}

} // verus!
