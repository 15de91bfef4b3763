//! Process-wide immutable configuration, and the parsing of its two
//! values from the plain strings the environment supplies.

use vstd::prelude::*;
use vstd::string::*;
use crate::host::is_digit;
use crate::host::is_digit_exec;

verus! {

/// Numeric value of a decimal digit string.
pub open spec fn dec_value(s: Seq<char>) -> int
    decreases s.len(),
{
    if s.len() == 0 {
        0
    } else {
        dec_value(s.drop_last()) * 10 + (s.last() as u32 - '0' as u32)
    }
}

pub open spec fn all_digits(s: Seq<char>) -> bool {
    forall|i: int| 0 <= i < s.len() ==> is_digit(#[trigger] s[i])
}

proof fn lemma_dec_value_nonneg(s: Seq<char>)
    requires
        all_digits(s),
    ensures
        dec_value(s) >= 0,
    decreases s.len(),
{
    if s.len() > 0 {
        assert(all_digits(s.drop_last()));
        lemma_dec_value_nonneg(s.drop_last());
    }
}

/// Reading further digits can only make the value larger.
proof fn lemma_dec_value_monotone(s: Seq<char>, i: int, j: int)
    requires
        all_digits(s),
        0 <= i <= j <= s.len(),
    ensures
        dec_value(s.subrange(0, i)) <= dec_value(s.subrange(0, j)),
    decreases j - i,
{
    if i < j {
        lemma_dec_value_monotone(s, i, j - 1);
        assert(s.subrange(0, j).drop_last() =~= s.subrange(0, j - 1));
        assert(all_digits(s.subrange(0, j - 1)));
        lemma_dec_value_nonneg(s.subrange(0, j - 1));
    }
}

/// Parse a decimal identifier length: `Some` exactly on a non-empty
/// all-digit string whose value fits the machine.
#[verifier::loop_isolation(false)]
pub fn parse_id_length(s: &str) -> (r: Option<usize>)
    ensures
        match r {
            Some(n) => s@.len() > 0 && all_digits(s@) && n as int == dec_value(s@),
            None => s@.len() == 0 || !all_digits(s@) || dec_value(s@) > usize::MAX as int,
        },
{
    let n = s.unicode_len();
    if n == 0 {
        return None;
    }
    let mut acc: usize = 0;
    let mut i: usize = 0;
    while i < n
        invariant
            i <= n,
            forall|j: int| 0 <= j < i ==> is_digit(#[trigger] s@[j]),
            acc as int == dec_value(s@.subrange(0, i as int)),
        decreases n - i,
    {
        let c = s.get_char(i);
        if !is_digit_exec(c) {
            return None;
        }
        let d: usize = (c as u32 - 48) as usize;
        let limit: usize = (usize::MAX - d) / 10;
        proof {
            assert(s@.subrange(0, i as int + 1).drop_last() =~= s@.subrange(0, i as int));
            assert(s@.subrange(0, i as int + 1).last() == s@[i as int]);
            vstd::arithmetic::div_mod::lemma_fundamental_div_mod(
                usize::MAX as int - d as int,
                10,
            );
        }
        if acc > limit {
            proof {
                if all_digits(s@) {
                    lemma_dec_value_monotone(s@, i as int + 1, s@.len() as int);
                    assert(s@.subrange(0, s@.len() as int) =~= s@);
                }
            }
            return None;
        }
        acc = acc * 10 + d;
        i += 1;
    }
    proof {
        assert(s@.subrange(0, s@.len() as int) =~= s@);
    }
    Some(acc)
}

pub open spec fn is_space(c: char) -> bool {
    c == ' ' || c == '\t' || c == '\n' || c == '\r'
}

/// First non-space position at or after `i`, or the length of `s`.
pub open spec fn skip_spaces(s: Seq<char>, i: int) -> int
    decreases s.len() - i
        when 0 <= i
{
    if i >= s.len() {
        s.len() as int
    } else if is_space(s[i]) {
        skip_spaces(s, i + 1)
    } else {
        i
    }
}

/// First space position at or after `i`, or the length of `s`.
pub open spec fn token_end(s: Seq<char>, i: int) -> int
    decreases s.len() - i
        when 0 <= i
{
    if i >= s.len() {
        s.len() as int
    } else if !is_space(s[i]) {
        token_end(s, i + 1)
    } else {
        i
    }
}

proof fn lemma_skip_spaces_bounds(s: Seq<char>, i: int)
    requires
        0 <= i <= s.len(),
    ensures
        i <= skip_spaces(s, i) <= s.len(),
        skip_spaces(s, i) < s.len() ==> !is_space(s[skip_spaces(s, i)]),
    decreases s.len() - i,
{
    if i < s.len() && is_space(s[i]) {
        lemma_skip_spaces_bounds(s, i + 1);
    }
}

proof fn lemma_token_end_bounds(s: Seq<char>, i: int)
    requires
        0 <= i <= s.len(),
    ensures
        i <= token_end(s, i) <= s.len(),
    decreases s.len() - i,
{
    if i < s.len() && !is_space(s[i]) {
        lemma_token_end_bounds(s, i + 1);
    }
}

/// The whitespace-separated tokens of `s` from position `i` on.
pub open spec fn tokens_from(s: Seq<char>, i: int) -> Seq<Seq<char>>
    decreases s.len() - i
        when 0 <= i <= s.len()
        via tokens_from_decreases
{
    let a = skip_spaces(s, i);
    if a >= s.len() {
        Seq::empty()
    } else {
        seq![s.subrange(a, token_end(s, a))] + tokens_from(s, token_end(s, a))
    }
}

#[via_fn]
proof fn tokens_from_decreases(s: Seq<char>, i: int) {
    lemma_skip_spaces_bounds(s, i);
    let a = skip_spaces(s, i);
    if a < s.len() {
        lemma_token_end_bounds(s, a + 1);
    }
}

fn skip_spaces_exec(s: &str, from: usize) -> (r: usize)
    requires
        from <= s@.len(),
    ensures
        r as int == skip_spaces(s@, from as int),
        from <= r <= s@.len(),
{
    let n = s.unicode_len();
    let mut k: usize = from;
    while k < n
        invariant
            from <= k <= n == s@.len(),
            skip_spaces(s@, from as int) == skip_spaces(s@, k as int),
        decreases n - k,
    {
        let c = s.get_char(k);
        if !(c == ' ' || c == '\t' || c == '\n' || c == '\r') {
            return k;
        }
        k += 1;
    }
    n
}

fn token_end_exec(s: &str, from: usize) -> (r: usize)
    requires
        from <= s@.len(),
    ensures
        r as int == token_end(s@, from as int),
        from <= r <= s@.len(),
{
    let n = s.unicode_len();
    let mut k: usize = from;
    while k < n
        invariant
            from <= k <= n == s@.len(),
            token_end(s@, from as int) == token_end(s@, k as int),
        decreases n - k,
    {
        let c = s.get_char(k);
        if c == ' ' || c == '\t' || c == '\n' || c == '\r' {
            return k;
        }
        k += 1;
    }
    n
}

/// Split a whitelist string on runs of whitespace; no empty entries.
#[verifier::loop_isolation(false)]
pub fn parse_whitelist(s: &str) -> (r: Vec<String>)
    ensures
        r.deep_view() == tokens_from(s@, 0),
{
    let n = s.unicode_len();
    let mut out: Vec<String> = Vec::new();
    let mut pos: usize = 0;
    let mut a = skip_spaces_exec(s, 0);
    while a < n
        invariant
            pos <= a <= n == s@.len(),
            a as int == skip_spaces(s@, pos as int),
            out.deep_view() + tokens_from(s@, pos as int) == tokens_from(s@, 0),
        decreases n - a,
    {
        proof {
            lemma_skip_spaces_bounds(s@, pos as int);
            lemma_token_end_bounds(s@, a as int + 1);
        }
        let b = token_end_exec(s, a);
        let piece = s.substring_char(a, b);
        let tok = piece.to_owned();
        let ghost pre = out.deep_view();
        out.push(tok);
        proof {
            assert(out.deep_view() =~= pre.push(s@.subrange(a as int, b as int)));
            assert(tokens_from(s@, pos as int) == seq![s@.subrange(a as int, b as int)]
                + tokens_from(s@, b as int));
            assert(out.deep_view() + tokens_from(s@, b as int) =~= pre + tokens_from(
                s@,
                pos as int,
            ));
        }
        pos = b;
        a = skip_spaces_exec(s, b);
    }
    proof {
        assert(tokens_from(s@, pos as int) =~= Seq::<Seq<char>>::empty());
        assert(out.deep_view() =~= out.deep_view() + tokens_from(s@, pos as int));
    }
    out
}

/// Identifier length and optional host whitelist, fixed at startup.
pub struct Config {
    pub id_length: usize,
    pub host_whitelist: Option<Vec<String>>,
}

impl Config {
    /// The identifier length must be positive.
    pub open spec fn wf(self) -> bool {
        self.id_length >= 1
    }

    pub fn new(id_length: usize, host_whitelist: Option<Vec<String>>) -> (c: Config)
        requires
            id_length >= 1,
        ensures
            c.wf(),
            c.id_length == id_length,
            c.host_whitelist == host_whitelist,
    {
        Config { id_length, host_whitelist }
    }
}

} // verus!
