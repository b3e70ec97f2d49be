//! Character-level helpers: ASCII case folding and case-insensitive
//! string comparison, used for keyword and adapter-name recognition.

use vstd::prelude::*;

verus! {

/// ASCII lower-casing of one character; every other character is unchanged.
pub open spec fn to_lower_ch(c: char) -> char {
    if 'A' <= c && c <= 'Z' {
        ((c as u32) + 32) as char
    } else {
        c
    }
}

/// ASCII lower-casing of a character sequence.
pub open spec fn to_lower_seq(s: Seq<char>) -> Seq<char> {
    s.map_values(|c: char| to_lower_ch(c))
}

/// A sequence that holds no ASCII upper-case letter folds to itself.
pub proof fn lemma_lower_seq_id(s: Seq<char>)
    requires
        forall|k: int| 0 <= k < s.len() ==> !('A' <= s[k] && s[k] <= 'Z'),
    ensures
        to_lower_seq(s) == s,
{
    assert(to_lower_seq(s) =~= s);
}

/// Compares two characters up to ASCII case.
fn ch_eq_ci(a: char, b: char) -> (r: bool)
    ensures
        r == (to_lower_ch(a) == to_lower_ch(b)),
{
    let ua = a as u32;
    let ub = b as u32;
    let la: u32 = if 65 <= ua && ua <= 90 { ua + 32 } else { ua };
    let lb: u32 = if 65 <= ub && ub <= 90 { ub + 32 } else { ub };
    la == lb
}

/// True when the two strings agree up to ASCII case.
pub fn eq_ignore_ascii_case(a: &str, b: &str) -> (r: bool)
    ensures
        r == (to_lower_seq(a@) == to_lower_seq(b@)),
{
    let alen = a.unicode_len();
    let blen = b.unicode_len();
    if alen != blen {
        proof {
            assert(to_lower_seq(a@).len() == a@.len());
            assert(to_lower_seq(b@).len() == b@.len());
        }
        return false;
    }
    let mut i: usize = 0;
    while i < alen
        invariant
            i <= alen,
            alen == a@.len(),
            alen == b@.len(),
            forall|k: int| 0 <= k < i ==> to_lower_ch(a@[k]) == to_lower_ch(b@[k]),
        decreases alen - i,
    {
        let ca = a.get_char(i);
        let cb = b.get_char(i);
        if !ch_eq_ci(ca, cb) {
            proof {
                assert(to_lower_seq(a@)[i as int] != to_lower_seq(b@)[i as int]);
            }
            return false;
        }
        i += 1;
    }
    proof {
        assert(to_lower_seq(a@) =~= to_lower_seq(b@));
    }
    true
}

} // verus!
