//! Verified text primitives: equality, lexicographic order and substring
//! search over character sequences.

use vstd::prelude::*;

verus! {

/// Lexicographic "less than or equal" on character sequences, ordered by
/// Unicode scalar value.
pub open spec fn seq_char_le(a: Seq<char>, b: Seq<char>) -> bool
    decreases a.len(),
{
    if a.len() == 0 {
        true
    } else if b.len() == 0 {
        false
    } else if (a[0] as u32) != (b[0] as u32) {
        (a[0] as u32) < (b[0] as u32)
    } else {
        seq_char_le(a.drop_first(), b.drop_first())
    }
}

/// The pattern occurs in `t` starting at position `i`.
pub open spec fn is_substr_at(t: Seq<char>, p: Seq<char>, i: int) -> bool {
    0 <= i && i + p.len() <= t.len() && t.subrange(i, i + p.len() as int) == p
}

/// The pattern occurs somewhere in `t`; the empty pattern occurs at 0.
pub open spec fn contains_seq(t: Seq<char>, p: Seq<char>) -> bool {
    exists|i: int| is_substr_at(t, p, i)
}

proof fn lemma_seq_char_le_skip(a: Seq<char>, b: Seq<char>, i: int)
    requires
        0 <= i <= a.len(),
        i <= b.len(),
        forall|j: int| 0 <= j < i ==> (a[j] as u32) == (b[j] as u32),
    ensures
        seq_char_le(a, b) == seq_char_le(a.skip(i), b.skip(i)),
    decreases i,
{
    if i == 0 {
        assert(a.skip(0) =~= a);
        assert(b.skip(0) =~= b);
    } else {
        assert(a.len() > 0 && b.len() > 0);
        assert((a[0] as u32) == (b[0] as u32));
        assert(a.drop_first() =~= a.skip(1));
        assert(b.drop_first() =~= b.skip(1));
        lemma_seq_char_le_skip(a.skip(1), b.skip(1), i - 1);
        assert(a.skip(1).skip(i - 1) =~= a.skip(i));
        assert(b.skip(1).skip(i - 1) =~= b.skip(i));
    }
}

/// Total lexicographic order: `a <= b` or `b <= a` always holds.
pub proof fn lemma_seq_char_le_total(a: Seq<char>, b: Seq<char>)
    ensures
        seq_char_le(a, b) || seq_char_le(b, a),
    decreases a.len(),
{
    if a.len() != 0 && b.len() != 0 && (a[0] as u32) == (b[0] as u32) {
        lemma_seq_char_le_total(a.drop_first(), b.drop_first());
    }
}

/// Transitivity of the lexicographic order.
pub proof fn lemma_seq_char_le_trans(a: Seq<char>, b: Seq<char>, c: Seq<char>)
    requires
        seq_char_le(a, b),
        seq_char_le(b, c),
    ensures
        seq_char_le(a, c),
    decreases a.len(),
{
    if a.len() != 0 && b.len() != 0 && c.len() != 0 {
        if (a[0] as u32) == (b[0] as u32) && (b[0] as u32) == (c[0] as u32) {
            lemma_seq_char_le_trans(a.drop_first(), b.drop_first(), c.drop_first());
        }
    }
}

/// Character-wise equality of two string slices.
pub fn str_eq(a: &str, b: &str) -> (r: bool)
    ensures
        r == (a@ == b@),
{
    let alen = a.unicode_len();
    let blen = b.unicode_len();
    if alen != blen {
        return false;
    }
    let mut i: usize = 0;
    while i < alen
        invariant
            0 <= i <= alen,
            alen == a@.len(),
            alen == b@.len(),
            forall|j: int| 0 <= j < i ==> a@[j] == b@[j],
        decreases alen - i,
    {
        if a.get_char(i) != b.get_char(i) {
            return false;
        }
        i = i + 1;
    }
    proof {
        assert(a@ =~= b@);
    }
    true
}

/// Lexicographic comparison of two string slices.
pub fn str_le(a: &str, b: &str) -> (r: bool)
    ensures
        r == seq_char_le(a@, b@),
{
    let alen = a.unicode_len();
    let blen = b.unicode_len();
    let mut i: usize = 0;
    loop
        invariant
            0 <= i <= alen,
            i <= blen,
            alen == a@.len(),
            blen == b@.len(),
            forall|j: int| 0 <= j < i ==> (a@[j] as u32) == (b@[j] as u32),
        decreases alen - i,
    {
        proof {
            lemma_seq_char_le_skip(a@, b@, i as int);
        }
        if i >= alen {
            return true;
        }
        if i >= blen {
            return false;
        }
        let ca = a.get_char(i) as u32;
        let cb = b.get_char(i) as u32;
        if ca != cb {
            return ca < cb;
        }
        i = i + 1;
    }
}

/// `suffix` ends `s`.
pub open spec fn ends_with(s: Seq<char>, suffix: Seq<char>) -> bool {
    s.len() >= suffix.len() && s.skip(s.len() - suffix.len()) == suffix
}

/// Does `s` end with `suffix`?
pub fn str_ends_with(s: &str, suffix: &str) -> (r: bool)
    ensures
        r == ends_with(s@, suffix@),
{
    let sl = s.unicode_len();
    let xl = suffix.unicode_len();
    if xl > sl {
        return false;
    }
    let mut j: usize = 0;
    while j < xl
        invariant
            0 <= j <= xl,
            xl <= sl,
            sl == s@.len(),
            xl == suffix@.len(),
            forall|l: int| 0 <= l < j ==> s@[sl - xl + l] == suffix@[l],
        decreases xl - j,
    {
        if s.get_char(sl - xl + j) != suffix.get_char(j) {
            proof {
                assert(s@.skip(sl - xl)[j as int] == s@[sl - xl + j]);
            }
            return false;
        }
        j = j + 1;
    }
    proof {
        assert forall|l: int| 0 <= l < xl implies s@.skip(sl - xl)[l] == suffix@[l] by {
            assert(s@[sl - xl + l] == suffix@[l]);
        }
        assert(s@.skip(sl - xl) =~= suffix@);
    }
    true
}

/// Substring search: does `pat` occur anywhere in `text`?
///
/// The empty pattern occurs in every text, as it does for the standard
/// library's pattern matching.
pub fn str_contains(text: &str, pat: &str) -> (r: bool)
    ensures
        r == contains_seq(text@, pat@),
{
    let tlen = text.unicode_len();
    let plen = pat.unicode_len();
    if plen > tlen {
        assert(!contains_seq(text@, pat@)) by {
            assert(forall|i: int| !is_substr_at(text@, pat@, i));
        }
        return false;
    }
    let mut i: usize = 0;
    while i <= tlen - plen
        invariant
            0 <= i,
            plen <= tlen,
            tlen == text@.len(),
            plen == pat@.len(),
            i <= tlen - plen + 1,
            forall|k: int| 0 <= k < i ==> !is_substr_at(text@, pat@, k),
        decreases tlen + 1 - plen - i,
    {
        let mut j: usize = 0;
        let mut mismatch = false;
        while j < plen && !mismatch
            invariant
                0 <= j <= plen,
                i + plen <= tlen,
                tlen == text@.len(),
                plen == pat@.len(),
                !mismatch ==> forall|l: int| 0 <= l < j ==> text@[i + l] == pat@[l],
                mismatch ==> exists|l: int| 0 <= l < plen && text@[i + l] != pat@[l],
            decreases plen - j + (if mismatch { 0int } else { 1int }),
        {
            if text.get_char(i + j) != pat.get_char(j) {
                mismatch = true;
            } else {
                j = j + 1;
            }
        }
        if !mismatch {
            proof {
                assert forall|l: int| 0 <= l < plen implies text@.subrange(
                    i as int,
                    i + plen as int,
                )[l] == pat@[l] by {
                    assert(text@[i + l] == pat@[l]);
                }
                assert(text@.subrange(i as int, i + plen as int) =~= pat@);
                assert(is_substr_at(text@, pat@, i as int));
            }
            return true;
        }
        proof {
            let l = choose|l: int| 0 <= l < plen && text@[i + l] != pat@[l];
            assert(!is_substr_at(text@, pat@, i as int)) by {
                if is_substr_at(text@, pat@, i as int) {
                    assert(text@.subrange(i as int, i + plen as int)[l] == pat@[l]);
                }
            }
        }
        i = i + 1;
    }
    proof {
        assert(forall|k: int| is_substr_at(text@, pat@, k) ==> 0 <= k <= tlen - plen);
        assert(!contains_seq(text@, pat@));
    }
    false
}

} // verus!
