//! ASCII case-insensitive substring search over byte sequences, and string
//! comparison helpers used throughout the decision layer.

use vstd::prelude::*;

verus! {

/// Lower-cases a byte in the ASCII letter range `A`..`Z`; every other byte is
/// left unchanged.
pub open spec fn lower_byte(b: u8) -> u8 {
    if 'A' as u8 <= b && b <= 'Z' as u8 {
        (b + 32) as u8
    } else {
        b
    }
}

/// The pattern `pat` matches `hay` at offset `i` when every byte of the
/// window, lower-cased, equals the corresponding pattern byte.
pub open spec fn matches_at(hay: Seq<u8>, pat: Seq<u8>, i: int) -> bool {
    forall|j: int| 0 <= j < pat.len() ==> lower_byte(hay[i + j]) == pat[j]
}

/// `hay` contains `pat` at some offset, ignoring the ASCII case of `hay`.
/// The pattern is taken as already lower-case.
pub open spec fn contains_ci(hay: Seq<u8>, pat: Seq<u8>) -> bool {
    exists|i: int| 0 <= i && i + pat.len() <= hay.len() && matches_at(hay, pat, i)
}

/// Executable ASCII lower-casing of one byte.
fn lower(b: u8) -> (r: u8)
    ensures
        r == lower_byte(b),
{
    if 65 <= b && b <= 90 {
        b + 32
    } else {
        b
    }
}

/// Naive search for `pat` in `hay`, ignoring the ASCII case of `hay`.
pub fn find_ci(hay: &[u8], pat: &[u8]) -> (r: bool)
    ensures
        r == contains_ci(hay@, pat@),
{
    let n = hay.len();
    let m = pat.len();
    if m > n {
        return false;
    }
    let mut i: usize = 0;
    while i <= n - m
        invariant
            m <= n,
            n == hay@.len(),
            m == pat@.len(),
            i <= n - m + 1,
            forall|k: int| 0 <= k < i ==> !matches_at(hay@, pat@, k),
        decreases n - m + 1 - i,
    {
        let mut j: usize = 0;
        let mut window_matches = true;
        while j < m
            invariant
                m <= n,
                i + m <= n,
                n == hay@.len(),
                m == pat@.len(),
                j <= m,
                window_matches <==> (forall|l: int|
                    0 <= l < j ==> lower_byte(hay@[i + l]) == pat@[l]),
            decreases m - j,
        {
            if lower(hay[i + j]) != pat[j] {
                window_matches = false;
            }
            j += 1;
        }
        if window_matches {
            assert(matches_at(hay@, pat@, i as int));
            return true;
        }
        i += 1;
    }
    false
}

/// Whether the string `s` consists of exactly the characters of `lit`.
pub fn str_eq_lit(s: &String, lit: &str) -> (r: bool)
    ensures
        r == (s@ == lit@),
{
    *s == lit.to_owned()
}

} // verus!
