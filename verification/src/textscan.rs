//! Case-insensitive substring search over character sequences.
//!
//! The health classification rule looks for fixed words inside the free-text
//! status string a runtime reports, ignoring ASCII case. The search is
//! written and proved here directly over `Seq<char>` views.

use vstd::prelude::*;

verus! {

/// ASCII lowercase folding of one character; all other characters unchanged.
pub open spec fn lower_char(c: char) -> char {
    if 65 <= c as u32 && c as u32 <= 90 {
        ((c as u32 + 32) as u8) as char
    } else {
        c
    }
}

/// ASCII lowercase folding of a character sequence.
pub open spec fn lower(s: Seq<char>) -> Seq<char> {
    s.map_values(|c: char| lower_char(c))
}

/// `needle` occurs in `hay` starting at position `i`.
pub open spec fn matches_at(hay: Seq<char>, needle: Seq<char>, i: int) -> bool {
    &&& 0 <= i
    &&& i + needle.len() <= hay.len()
    &&& hay.subrange(i, i + needle.len()) == needle
}

/// `needle` occurs somewhere in `hay`.
pub open spec fn has_substring(hay: Seq<char>, needle: Seq<char>) -> bool {
    exists|i: int| matches_at(hay, needle, i)
}

/// `needle` occurs somewhere in `hay`, ignoring ASCII case on both sides.
pub open spec fn has_substring_ci(hay: Seq<char>, needle: Seq<char>) -> bool {
    has_substring(lower(hay), lower(needle))
}

/// ASCII lowercase folding of one character.
fn lower_char_exec(c: char) -> (r: char)
    ensures
        r == lower_char(c),
{
    let u = c as u32;
    if 65 <= u && u <= 90 {
        ((u + 32) as u8) as char
    } else {
        c
    }
}

/// Whether `needle` occurs in `hay` at position `i`, ignoring ASCII case.
fn match_at(hay: &str, needle: &str, i: usize) -> (b: bool)
    requires
        i + needle@.len() <= hay@.len(),
    ensures
        b == matches_at(lower(hay@), lower(needle@), i as int),
{
    let h = hay.unicode_len();
    let n = needle.unicode_len();
    let mut k: usize = 0;
    while k < n
        invariant
            k <= n,
            n == needle@.len(),
            h == hay@.len(),
            i + n <= h,
            forall|t: int| 0 <= t < k ==> lower(hay@)[i + t] == lower(needle@)[t],
        decreases n - k,
    {
        let hc = hay.get_char(i + k);
        let nc = needle.get_char(k);
        if lower_char_exec(hc) != lower_char_exec(nc) {
            proof {
                assert(lower(hay@)[i + k] == lower_char(hay@[i + k]));
                assert(lower(needle@)[k as int] == lower_char(needle@[k as int]));
                if matches_at(lower(hay@), lower(needle@), i as int) {
                    assert(lower(hay@).subrange(i as int, i + n)[k as int]
                        == lower(needle@)[k as int]);
                }
            }
            return false;
        }
        k += 1;
    }
    proof {
        assert(lower(hay@).subrange(i as int, i + n as int) =~= lower(needle@));
    }
    true
}

/// Whether `needle` occurs anywhere in `hay`, ignoring ASCII case.
pub fn contains_ci(hay: &str, needle: &str) -> (b: bool)
    ensures
        b == has_substring_ci(hay@, needle@),
{
    let h = hay.unicode_len();
    let n = needle.unicode_len();
    if n == 0 {
        proof {
            assert(lower(hay@).subrange(0, 0) =~= lower(needle@));
            assert(matches_at(lower(hay@), lower(needle@), 0));
        }
        return true;
    }
    if n > h {
        proof {
            assert forall|i: int| !matches_at(lower(hay@), lower(needle@), i) by {
                assert(lower(hay@).len() == hay@.len());
                assert(lower(needle@).len() == needle@.len());
            }
        }
        return false;
    }
    let last = h - n;
    let mut i: usize = 0;
    while i <= last
        invariant
            h == hay@.len(),
            n == needle@.len(),
            1 <= n <= h,
            last == h - n,
            i <= last + 1,
            forall|j: int| 0 <= j < i ==> !matches_at(lower(hay@), lower(needle@), j),
        decreases last + 1 - i,
    {
        if match_at(hay, needle, i) {
            proof {
                assert(matches_at(lower(hay@), lower(needle@), i as int));
            }
            return true;
        }
        i += 1;
    }
    proof {
        assert forall|j: int| !matches_at(lower(hay@), lower(needle@), j) by {
            if matches_at(lower(hay@), lower(needle@), j) {
                assert(0 <= j && j + n <= h);
            }
        }
    }
    false
}

} // verus!
