//! Extraction of the host component from an absolute URL.
//!
//! The grammar accepted here is deliberately small: `scheme "://"`, then an
//! authority running up to the first `/`, `?` or `#`, inside which an
//! optional userinfo part ends at the last `@` and an optional numeric port
//! follows the first `:`. The host is what stands between the two; it must
//! be non-empty and consist of letters, digits, `-`, `.`, `_`, `~` or `%`.

use vstd::prelude::*;
use vstd::string::*;

verus! {

pub open spec fn is_alpha(c: char) -> bool {
    ('a' <= c && c <= 'z') || ('A' <= c && c <= 'Z')
}

pub open spec fn is_digit(c: char) -> bool {
    '0' <= c && c <= '9'
}

pub open spec fn is_scheme_char(c: char) -> bool {
    is_alpha(c) || is_digit(c) || c == '+' || c == '-' || c == '.'
}

pub open spec fn is_host_char(c: char) -> bool {
    is_alpha(c) || is_digit(c) || c == '-' || c == '.' || c == '_' || c == '~' || c == '%'
}

/// A scheme is non-empty, starts with a letter, and holds only scheme
/// characters up to (not including) index `end`.
pub open spec fn valid_scheme(s: Seq<char>, end: int) -> bool {
    &&& end >= 1
    &&& is_alpha(s[0])
    &&& forall|k: int| 0 <= k < end ==> is_scheme_char(#[trigger] s[k])
}

/// Index of the first `:` in `s[i .. end]`, if any.
pub open spec fn find_colon_in(s: Seq<char>, i: int, end: int) -> Option<int>
    decreases end - i
        when i <= end

{
    if i >= end {
        None
    } else if s[i] == ':' {
        Some(i)
    } else {
        find_colon_in(s, i + 1, end)
    }
}

pub open spec fn is_authority_end(c: char) -> bool {
    c == '/' || c == '?' || c == '#'
}

/// Index of the first `/`, `?` or `#` at or after `i`, or the length of `s`.
pub open spec fn find_auth_end(s: Seq<char>, i: int) -> int
    decreases s.len() - i
        when 0 <= i

{
    if i >= s.len() {
        s.len() as int
    } else if is_authority_end(s[i]) {
        i
    } else {
        find_auth_end(s, i + 1)
    }
}

/// Index of the last `@` in `s[i .. end]`, if any.
pub open spec fn find_last_at(s: Seq<char>, i: int, end: int) -> Option<int>
    decreases end - i
        when i <= end

{
    if i >= end {
        None
    } else {
        match find_last_at(s, i + 1, end) {
            Some(j) => Some(j),
            None => if s[i] == '@' {
                Some(i)
            } else {
                None
            },
        }
    }
}

/// The span `[start, end)` of the host inside `s`, if `s` is an absolute
/// URL with a host under the grammar above.
pub open spec fn host_span(s: Seq<char>) -> Option<(int, int)> {
    match find_colon_in(s, 0, s.len() as int) {
        None => None,
        Some(c) => {
            if !(valid_scheme(s, c) && c + 3 <= s.len() && s[c + 1] == '/' && s[c + 2] == '/') {
                None
            } else {
                let astart = c + 3;
                let aend = find_auth_end(s, astart);
                let hstart = match find_last_at(s, astart, aend) {
                    Some(j) => j + 1,
                    None => astart,
                };
                let hend = match find_colon_in(s, hstart, aend) {
                    Some(j) => j,
                    None => aend,
                };
                let port_ok = match find_colon_in(s, hstart, aend) {
                    Some(j) => forall|k: int| j < k < aend ==> is_digit(#[trigger] s[k]),
                    None => true,
                };
                if hstart < hend && port_ok && (forall|k: int|
                    hstart <= k < hend ==> is_host_char(#[trigger] s[k])) {
                    Some((hstart, hend))
                } else {
                    None
                }
            }
        },
    }
}

/// The host component of `s`, if `s` is an absolute URL with a host.
pub open spec fn host_of(s: Seq<char>) -> Option<Seq<char>> {
    match host_span(s) {
        Some((a, b)) => Some(s.subrange(a, b)),
        None => None,
    }
}

proof fn lemma_find_last_at_char(s: Seq<char>, i: int, end: int)
    requires
        0 <= i <= end <= s.len(),
    ensures
        match find_last_at(s, i, end) {
            Some(j) => i <= j < end && s[j] == '@' && (forall|k: int|
                j < k < end ==> #[trigger] s[k] != '@'),
            None => forall|k: int| i <= k < end ==> #[trigger] s[k] != '@',
        },
    decreases end - i,
{
    if i < end {
        lemma_find_last_at_char(s, i + 1, end);
    }
}

fn is_alpha_exec(c: char) -> (r: bool)
    ensures
        r == is_alpha(c),
{
    ('a' <= c && c <= 'z') || ('A' <= c && c <= 'Z')
}

pub(crate) fn is_digit_exec(c: char) -> (r: bool)
    ensures
        r == is_digit(c),
{
    '0' <= c && c <= '9'
}

fn is_scheme_char_exec(c: char) -> (r: bool)
    ensures
        r == is_scheme_char(c),
{
    is_alpha_exec(c) || is_digit_exec(c) || c == '+' || c == '-' || c == '.'
}

fn is_host_char_exec(c: char) -> (r: bool)
    ensures
        r == is_host_char(c),
{
    is_alpha_exec(c) || is_digit_exec(c) || c == '-' || c == '.' || c == '_' || c == '~' || c
        == '%'
}

fn find_colon_exec(s: &str, from: usize, end: usize) -> (r: Option<usize>)
    requires
        from <= end <= s@.len(),
    ensures
        match r {
            Some(j) => from <= j < end && find_colon_in(s@, from as int, end as int) == Some(
                j as int,
            ),
            None => find_colon_in(s@, from as int, end as int) is None,
        },
{
    let mut k: usize = from;
    while k < end
        invariant
            from <= k <= end <= s@.len(),
            find_colon_in(s@, from as int, end as int) == find_colon_in(s@, k as int, end as int),
        decreases end - k,
    {
        if s.get_char(k) == ':' {
            return Some(k);
        }
        k += 1;
    }
    None
}

fn find_auth_end_exec(s: &str, from: usize) -> (r: usize)
    requires
        from <= s@.len(),
    ensures
        r as int == find_auth_end(s@, from as int),
        from <= r <= s@.len(),
{
    let n = s.unicode_len();
    let mut k: usize = from;
    while k < n
        invariant
            from <= k <= n == s@.len(),
            find_auth_end(s@, from as int) == find_auth_end(s@, k as int),
        decreases n - k,
    {
        let c = s.get_char(k);
        if c == '/' || c == '?' || c == '#' {
            return k;
        }
        k += 1;
    }
    n
}

fn find_last_at_exec(s: &str, from: usize, end: usize) -> (r: Option<usize>)
    requires
        from <= end <= s@.len(),
    ensures
        match r {
            Some(j) => from <= j < end && find_last_at(s@, from as int, end as int) == Some(
                j as int,
            ),
            None => find_last_at(s@, from as int, end as int) is None,
        },
{
    let mut k: usize = end;
    while k > from
        invariant
            from <= k <= end <= s@.len(),
            forall|t: int| k <= t < end ==> #[trigger] s@[t] != '@',
        decreases k,
    {
        k -= 1;
        if s.get_char(k) == '@' {
            proof {
                lemma_find_last_at_char(s@, from as int, end as int);
                match find_last_at(s@, from as int, end as int) {
                    Some(j) => {
                        if j < k as int {
                            assert(s@[k as int] != '@');
                        }
                        if j > k as int {
                            assert(s@[j] != '@');
                        }
                    },
                    None => {
                        assert(s@[k as int] != '@');
                    },
                }
            }
            return Some(k);
        }
    }
    proof {
        lemma_find_last_at_char(s@, from as int, end as int);
        match find_last_at(s@, from as int, end as int) {
            Some(j) => {
                assert(s@[j] != '@');
            },
            None => {},
        }
    }
    None
}

/// The host of `url` under the grammar above, or `None` when `url` is not
/// an absolute URL with a host.
#[verifier::loop_isolation(false)]
pub fn parse_host(url: &str) -> (r: Option<String>)
    ensures
        match r {
            Some(h) => host_of(url@) == Some(h@),
            None => host_of(url@) is None,
        },
{
    let n = url.unicode_len();
    let c = match find_colon_exec(url, 0, n) {
        Some(c) => c,
        None => {
            return None;
        },
    };
    if c < 1 || !is_alpha_exec(url.get_char(0)) {
        return None;
    }
    let mut k: usize = 0;
    while k < c
        invariant
            0 <= k <= c < n == url@.len(),
            is_alpha(url@[0]),
            forall|i: int| 0 <= i < k ==> is_scheme_char(#[trigger] url@[i]),
        decreases c - k,
    {
        if !is_scheme_char_exec(url.get_char(k)) {
            return None;
        }
        k += 1;
    }
    if n - c < 3 {
        return None;
    }
    if url.get_char(c + 1) != '/' || url.get_char(c + 2) != '/' {
        return None;
    }
    let astart = c + 3;
    let aend = find_auth_end_exec(url, astart);
    let hstart = match find_last_at_exec(url, astart, aend) {
        Some(j) => j + 1,
        None => astart,
    };
    let hend = match find_colon_exec(url, hstart, aend) {
        Some(j) => {
            let mut k: usize = j + 1;
            while k < aend
                invariant
                    j < k <= aend <= url@.len(),
                    forall|i: int| j < i < k ==> is_digit(#[trigger] url@[i]),
                decreases aend - k,
            {
                if !is_digit_exec(url.get_char(k)) {
                    return None;
                }
                k += 1;
            }
            j
        },
        None => aend,
    };
    if hstart >= hend {
        return None;
    }
    let mut k: usize = hstart;
    while k < hend
        invariant
            hstart <= k <= hend <= url@.len(),
            forall|i: int| hstart <= i < k ==> is_host_char(#[trigger] url@[i]),
        decreases hend - k,
    {
        if !is_host_char_exec(url.get_char(k)) {
            return None;
        }
        k += 1;
    }
    let h = url.substring_char(hstart, hend);
    Some(h.to_owned())
}

} // verus!
