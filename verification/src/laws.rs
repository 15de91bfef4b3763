//! Laws of the shortlink lifecycle, stated over the service's
//! specification functions and proved once for all inputs.

use vstd::prelude::*;
use crate::alphabet::alphabet;
use crate::alphabet::in_alphabet;
use crate::alphabet::lemma_alphabet_len;
use crate::alphabet::symbol_for;
use crate::alphabet::valid_id;
use crate::errors::Error;
use crate::service::budget;
use crate::service::candidate;
use crate::service::create_spec;
use crate::service::first_fresh;
use crate::service::resolve_spec;

verus! {

/// Law: a URL that `create` accepted resolves back to itself through the
/// identifier that `create` returned.
pub proof fn lemma_create_then_resolve(
    m: Map<Seq<char>, Seq<char>>,
    up: bool,
    wl: Option<Seq<Seq<char>>>,
    len: nat,
    url: Seq<char>,
    rand: Seq<u64>,
)
    requires
        len >= 1,
        create_spec(m, up, wl, len, url, rand).1 is Ok,
    ensures
        ({
            let (m2, r) = create_spec(m, up, wl, len, url, rand);
            match r {
                Ok(id) => resolve_spec(m2, up, id) == Ok::<Seq<char>, Error>(url),
                Err(_) => false,
            }
        }),
{
}

/// Law: every identifier `create` returns has exactly `len` characters,
/// all drawn from the alphanumeric alphabet.
pub proof fn lemma_created_id_well_formed(
    m: Map<Seq<char>, Seq<char>>,
    up: bool,
    wl: Option<Seq<Seq<char>>>,
    len: nat,
    url: Seq<char>,
    rand: Seq<u64>,
)
    requires
        len >= 1,
        create_spec(m, up, wl, len, url, rand).1 is Ok,
    ensures
        match create_spec(m, up, wl, len, url, rand).1 {
            Ok(id) => valid_id(id, len),
            Err(_) => false,
        },
{
    lemma_alphabet_len();
    match first_fresh(m, rand, len, 0) {
        Some(k) => {
            let id = candidate(rand, len, k);
            assert forall|j: int| 0 <= j < id.len() implies in_alphabet(#[trigger] id[j]) by {
                let v = rand[k * (len as int) + j];
                let idx = (v as int) % 62;
                assert(id[j] == symbol_for(v));
                assert(0 <= idx < 62);
                assert(alphabet()[idx] == symbol_for(v));
            }
        },
        None => {},
    }
}

/// The attempt `first_fresh` picks really is fresh: its candidate is
/// absent from the map.
proof fn lemma_first_fresh_fresh(m: Map<Seq<char>, Seq<char>>, rand: Seq<u64>, len: nat, k0: int)
    requires
        len >= 1,
        0 <= k0,
    ensures
        match first_fresh(m, rand, len, k0) {
            Some(k) => k0 <= k && !m.contains_key(candidate(rand, len, k)),
            None => true,
        },
    decreases budget(rand, len) - k0,
{
    if k0 < budget(rand, len) && m.contains_key(candidate(rand, len, k0)) {
        lemma_first_fresh_fresh(m, rand, len, k0 + 1);
    }
}

/// Law: two sequential successful creates with the same URL yield two
/// distinct identifiers, and afterwards each resolves to that URL.
pub proof fn lemma_sequential_creates_distinct(
    m: Map<Seq<char>, Seq<char>>,
    wl: Option<Seq<Seq<char>>>,
    len: nat,
    url: Seq<char>,
    rand1: Seq<u64>,
    rand2: Seq<u64>,
)
    requires
        len >= 1,
        create_spec(m, true, wl, len, url, rand1).1 is Ok,
        create_spec(create_spec(m, true, wl, len, url, rand1).0, true, wl, len, url, rand2).1
            is Ok,
    ensures
        ({
            let (m1, r1) = create_spec(m, true, wl, len, url, rand1);
            let (m2, r2) = create_spec(m1, true, wl, len, url, rand2);
            match (r1, r2) {
                (Ok(id1), Ok(id2)) => id1 != id2 && resolve_spec(m2, true, id1) == Ok::<
                    Seq<char>,
                    Error,
                >(url) && resolve_spec(m2, true, id2) == Ok::<Seq<char>, Error>(url),
                _ => false,
            }
        }),
{
    let (m1, r1) = create_spec(m, true, wl, len, url, rand1);
    let (m2, r2) = create_spec(m1, true, wl, len, url, rand2);
    match (r1, r2) {
        (Ok(id1), Ok(id2)) => {
            lemma_first_fresh_fresh(m1, rand2, len, 0);
            assert(m1.contains_key(id1));
            assert(!m1.contains_key(id2));
            assert(m1[id1] == url);
            assert(m2 == m1.insert(id2, url));
        },
        _ => {},
    }
}

/// Law: resolving an identifier that was never stored fails with
/// `NotFound` while the store is reachable.
pub proof fn lemma_resolve_never_created(m: Map<Seq<char>, Seq<char>>, id: Seq<char>)
    requires
        !m.contains_key(id),
    ensures
        resolve_spec(m, true, id) == Err::<Seq<char>, Error>(Error::NotFound),
{
}

} // verus!
