use vstd::prelude::*;
use vstd::string::*;

verus! {

/// The 62 symbols an identifier is drawn from: upper case letters, lower
/// case letters and decimal digits.
pub open spec fn alphabet() -> Seq<char> {
    "ABCDEFGHIJKLMNOPQRSTUVWXYZabcdefghijklmnopqrstuvwxyz0123456789"@
}

pub open spec fn in_alphabet(c: char) -> bool {
    alphabet().contains(c)
}

/// An identifier is well formed when it has exactly `len` characters, all
/// drawn from the alphabet.
pub open spec fn valid_id(s: Seq<char>, len: nat) -> bool {
    &&& s.len() == len
    &&& forall|i: int| 0 <= i < s.len() ==> in_alphabet(#[trigger] s[i])
}

/// The symbol a single random value selects.
pub open spec fn symbol_for(v: u64) -> char {
    alphabet()[(v as int) % 62]
}

/// The identifier a run of `len` random values selects, one symbol per
/// value, starting at `start`.
pub open spec fn id_from(rand: Seq<u64>, start: int, len: nat) -> Seq<char> {
    Seq::new(len, |j: int| symbol_for(rand[start + j]))
}

pub proof fn lemma_alphabet_len()
    ensures
        alphabet().len() == 62,
{
    reveal_strlit("ABCDEFGHIJKLMNOPQRSTUVWXYZabcdefghijklmnopqrstuvwxyz0123456789");
}

/// Append the symbol that `v` selects.
fn push_symbol(s: &mut String, v: u64)
    ensures
        final(s)@ == old(s)@.push(symbol_for(v)),
{
    let a: &str = "ABCDEFGHIJKLMNOPQRSTUVWXYZabcdefghijklmnopqrstuvwxyz0123456789";
    proof {
        reveal_strlit("ABCDEFGHIJKLMNOPQRSTUVWXYZabcdefghijklmnopqrstuvwxyz0123456789");
    }
    let idx: usize = (v % 62) as usize;
    let piece = a.substring_char(idx, idx + 1);
    s.append(piece);
    proof {
        assert(old(s)@ + a@.subrange(idx as int, idx as int + 1) =~= old(s)@.push(
            a@[idx as int],
        ));
    }
}

/// Build the identifier that `rand[start .. start + len]` selects.
pub fn make_id(len: usize, rand: &Vec<u64>, start: usize) -> (id: String)
    requires
        start + len <= rand.len(),
    ensures
        id@ == id_from(rand@, start as int, len as nat),
        valid_id(id@, len as nat),
{
    let mut id = String::new();
    let mut j: usize = 0;
    while j < len
        invariant
            start + len <= rand.len(),
            j <= len,
            id@ == id_from(rand@, start as int, len as nat).subrange(0, j as int),
        decreases len - j,
    {
        push_symbol(&mut id, rand[start + j]);
        j += 1;
        proof {
            assert(id@ =~= id_from(rand@, start as int, len as nat).subrange(0, j as int));
        }
    }
    proof {
        assert(id@ =~= id_from(rand@, start as int, len as nat));
        lemma_alphabet_len();
    }
    id
}

} // verus!
