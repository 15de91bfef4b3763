//! Whitelist enforcement on inbound URLs.

use vstd::prelude::*;
use crate::errors::Error;
use crate::host::host_of;
use crate::host::parse_host;

verus! {

/// The configured whitelist as a sequence of host names, or `None` when no
/// whitelist is configured.
pub open spec fn whitelist_view(w: Option<Vec<String>>) -> Option<Seq<Seq<char>>> {
    match w {
        None => None,
        Some(v) => Some(v.deep_view()),
    }
}

/// With no whitelist every host is allowed; with one, exactly the listed
/// hosts are (case-sensitive, whole-string match).
pub open spec fn host_allowed(wl: Option<Seq<Seq<char>>>, h: Seq<char>) -> bool {
    match wl {
        None => true,
        Some(ws) => exists|i: int| #![trigger ws[i]] 0 <= i < ws.len() && ws[i] == h,
    }
}

/// `InvalidUrl` when the URL has no host under the grammar,
/// `HostNotAllowed` when its host is off the whitelist, `Ok` otherwise.
pub open spec fn validate_spec(wl: Option<Seq<Seq<char>>>, url: Seq<char>) -> Result<(), Error> {
    match host_of(url) {
        None => Err(Error::InvalidUrl),
        Some(h) => if host_allowed(wl, h) {
            Ok(())
        } else {
            Err(Error::HostNotAllowed)
        },
    }
}

/// Decide whether `url` may be shortened under `whitelist`.
#[verifier::loop_isolation(false)]
pub fn validate_url(url: &str, whitelist: &Option<Vec<String>>) -> (r: Result<(), Error>)
    ensures
        r == validate_spec(whitelist_view(*whitelist), url@),
{
    let host = match parse_host(url) {
        Some(h) => h,
        None => {
            return Err(Error::InvalidUrl);
        },
    };
    match whitelist {
        None => Ok(()),
        Some(list) => {
            let mut i: usize = 0;
            while i < list.len()
                invariant
                    i <= list.len(),
                    forall|j: int| 0 <= j < i ==> list@[j]@ != host@,
                decreases list@.len() - i,
            {
                if list[i] == host {
                    proof {
                        assert(list.deep_view()[i as int] == host@);
                        assert(host_allowed(Some(list.deep_view()), host@));
                        assert(host_allowed(whitelist_view(*whitelist), host@));
                    }
                    return Ok(());
                }
                i += 1;
            }
            proof {
                assert(forall|j: int| 0 <= j < list.deep_view().len() ==> #[trigger] list.deep_view()[j] != host@);
            }
            Err(Error::HostNotAllowed)
        },
    }
}

} // verus!
