//! Case-insensitive text matching.
//!
//! Category labels and username searches match up to ASCII case, the way
//! the persistence layer's `LOWER` and `ILIKE` comparisons do for ASCII
//! text.  Characters outside the ASCII capital letters are compared as
//! they are.

use vstd::prelude::*;

verus! {

/// The code point of a character with an ASCII capital letter folded to
/// its lower-case counterpart.
pub open spec fn fold_char(c: char) -> u32 {
    if 65 <= c as u32 <= 90 {
        (c as u32 + 32) as u32
    } else {
        c as u32
    }
}

/// The two texts are equal up to ASCII case.
pub open spec fn fold_eq(a: Seq<char>, b: Seq<char>) -> bool {
    a.len() == b.len() && forall|i: int| 0 <= i < a.len() ==> fold_char(a[i]) == fold_char(b[i])
}

/// `needle` occurs contiguously in `hay`, up to ASCII case.
pub open spec fn fold_contains(hay: Seq<char>, needle: Seq<char>) -> bool {
    exists|k: int|
        0 <= k <= hay.len() - needle.len() && #[trigger] fold_eq(
            hay.subrange(k, k + needle.len() as int),
            needle,
        )
}

/// Folds one character.
fn fold_char_exec(c: char) -> (r: u32)
    ensures
        r == fold_char(c),
{
    let u = c as u32;
    if 65 <= u && u <= 90 {
        u + 32
    } else {
        u
    }
}

/// Whether two texts are equal up to ASCII case.
pub fn eq_ignore_ascii_case(a: &str, b: &str) -> (r: bool)
    ensures
        r == fold_eq(a@, b@),
{
    let a_len = a.unicode_len();
    let b_len = b.unicode_len();
    if a_len != b_len {
        return false;
    }
    let mut i: usize = 0;
    while i < a_len
        invariant
            i <= a_len == a@.len() == b@.len(),
            forall|j: int| 0 <= j < i ==> fold_char(a@[j]) == fold_char(b@[j]),
        decreases a_len - i,
    {
        if fold_char_exec(a.get_char(i)) != fold_char_exec(b.get_char(i)) {
            return false;
        }
        i = i + 1;
    }
    true
}

/// Whether the window of `hay` starting at `k` equals `needle` up to
/// ASCII case.
fn window_matches(hay: &str, k: usize, needle: &str) -> (r: bool)
    requires
        k + needle@.len() <= hay@.len(),
    ensures
        r == fold_eq(hay@.subrange(k as int, k + needle@.len()), needle@),
{
    let h_len = hay.unicode_len();
    let n_len = needle.unicode_len();
    let mut j: usize = 0;
    while j < n_len
        invariant
            j <= n_len == needle@.len(),
            k + needle@.len() <= hay@.len() == h_len,
            forall|m: int| 0 <= m < j ==> fold_char(hay@[k + m]) == fold_char(needle@[m]),
        decreases n_len - j,
    {
        if fold_char_exec(hay.get_char(k + j)) != fold_char_exec(needle.get_char(j)) {
            proof {
                assert(hay@.subrange(k as int, k + needle@.len())[j as int] == hay@[k + j]);
            }
            return false;
        }
        j = j + 1;
    }
    proof {
        assert forall|m: int| 0 <= m < needle@.len() implies fold_char(
            hay@.subrange(k as int, k + needle@.len())[m],
        ) == fold_char(needle@[m]) by {
            assert(hay@.subrange(k as int, k + needle@.len())[m] == hay@[k + m]);
        }
    }
    true
}

/// Whether `needle` occurs contiguously in `hay`, up to ASCII case.
pub fn contains_ignore_ascii_case(hay: &str, needle: &str) -> (r: bool)
    ensures
        r == fold_contains(hay@, needle@),
{
    let h_len = hay.unicode_len();
    let n_len = needle.unicode_len();
    if n_len > h_len {
        return false;
    }
    let mut k: usize = 0;
    while k <= h_len - n_len
        invariant
            n_len <= h_len == hay@.len(),
            n_len == needle@.len(),
            k <= h_len - n_len + 1,
            forall|k2: int|
                0 <= k2 < k ==> !(#[trigger] fold_eq(
                    hay@.subrange(k2, k2 + needle@.len()),
                    needle@,
                )),
        decreases h_len - n_len + 1 - k,
    {
        if window_matches(hay, k, needle) {
            return true;
        }
        k = k + 1;
    }
    false
}

} // verus!
