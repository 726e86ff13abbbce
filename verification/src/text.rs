//! Character-level helpers for the textual encodings the library reads.

use vstd::prelude::*;

verus! {

/// Compares two string slices character by character.
pub fn str_eq(a: &str, b: &str) -> (r: bool)
    ensures
        r == (a@ == b@),
{
    let a_len = a.unicode_len();
    let b_len = b.unicode_len();
    if a_len != b_len {
        return false;
    }
    let mut i: usize = 0;
    while i < a_len
        invariant
            a_len == a@.len(),
            b_len == b@.len(),
            a_len == b_len,
            i <= a_len,
            forall|j: int| 0 <= j < i ==> a@[j] == b@[j],
        decreases a_len - i,
    {
        if a.get_char(i) != b.get_char(i) {
            return false;
        }
        i = i + 1;
    }
    proof {
        assert(a@ =~= b@);
    }
    true
}

/// `a` comes strictly before `b` in lexicographic order of the characters'
/// code points — the order a byte-wise collation gives ASCII zone codes.
pub open spec fn seq_char_lt(a: Seq<char>, b: Seq<char>) -> bool
    decreases a.len(),
{
    if b.len() == 0 {
        false
    } else if a.len() == 0 {
        true
    } else if (a[0] as int) < (b[0] as int) {
        true
    } else if a[0] == b[0] {
        seq_char_lt(a.drop_first(), b.drop_first())
    } else {
        false
    }
}

/// Lexicographic order is a strict total order: two strings are ordered one
/// way, or the other, or they are equal, and never two of these at once.
pub proof fn lemma_seq_char_lt_total(a: Seq<char>, b: Seq<char>)
    ensures
        seq_char_lt(a, b) || seq_char_lt(b, a) || a == b,
        !(seq_char_lt(a, b) && seq_char_lt(b, a)),
        seq_char_lt(a, b) ==> a != b,
    decreases a.len(),
{
    if a.len() == 0 && b.len() == 0 {
        assert(a =~= b);
    } else if a.len() > 0 && b.len() > 0 && a[0] == b[0] {
        lemma_seq_char_lt_total(a.drop_first(), b.drop_first());
        if a.drop_first() == b.drop_first() {
            assert forall|i: int| 0 <= i < a.len() implies a[i] == b[i] by {
                if i > 0 {
                    assert(a.drop_first()[i - 1] == a[i]);
                    assert(b.drop_first()[i - 1] == b[i]);
                }
            }
            assert(a =~= b);
        }
        if a == b {
            assert(a.drop_first() =~= b.drop_first());
        }
    }
}

/// Lexicographic order is transitive.
pub proof fn lemma_seq_char_lt_trans(a: Seq<char>, b: Seq<char>, c: Seq<char>)
    requires
        seq_char_lt(a, b),
        seq_char_lt(b, c),
    ensures
        seq_char_lt(a, c),
    decreases a.len(),
{
    if a.len() > 0 && b.len() > 0 && c.len() > 0 && a[0] == b[0] && b[0] == c[0] {
        lemma_seq_char_lt_trans(a.drop_first(), b.drop_first(), c.drop_first());
    }
}

/// Compares two string slices lexicographically, character by character.
pub fn str_lt(a: &str, b: &str) -> (r: bool)
    ensures
        r == seq_char_lt(a@, b@),
{
    proof {
        assert(a@.skip(0) =~= a@);
        assert(b@.skip(0) =~= b@);
    }
    str_lt_from(a, b, 0)
}

fn str_lt_from(a: &str, b: &str, i: usize) -> (r: bool)
    requires
        i <= a@.len(),
        i <= b@.len(),
    ensures
        r == seq_char_lt(a@.skip(i as int), b@.skip(i as int)),
    decreases a@.len() - i,
{
    let b_len = b.unicode_len();
    if i == b_len {
        return false;
    }
    let a_len = a.unicode_len();
    if i == a_len {
        return true;
    }
    let ca = a.get_char(i);
    let cb = b.get_char(i);
    proof {
        assert(a@.skip(i as int)[0] == a@[i as int]);
        assert(b@.skip(i as int)[0] == b@[i as int]);
        assert(a@.skip(i as int).drop_first() =~= a@.skip(i + 1));
        assert(b@.skip(i as int).drop_first() =~= b@.skip(i + 1));
    }
    if (ca as u32) < (cb as u32) {
        true
    } else if ca == cb {
        str_lt_from(a, b, i + 1)
    } else {
        false
    }
}

} // verus!
