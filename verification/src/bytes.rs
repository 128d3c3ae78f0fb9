//! Byte-string primitives for the scoring pipeline: ASCII case folding,
//! substring containment, and non-overlapping occurrence counting.
//!
//! Content and targets are byte strings. Because UTF-8 never reuses the
//! ASCII range inside a multi-byte sequence, byte-level folding and matching
//! agree with character-level ASCII folding and matching on UTF-8 text.

use vstd::prelude::*;

verus! {

/// One byte of ASCII case folding: uppercase letters map to lowercase,
/// every other byte is unchanged.
pub open spec fn spec_fold_byte(b: u8) -> u8 {
    if 65 <= b <= 90 {
        (b + 32) as u8
    } else {
        b
    }
}

/// ASCII case folding of a byte string.
pub open spec fn spec_fold(s: Seq<u8>) -> Seq<u8> {
    s.map_values(|b: u8| spec_fold_byte(b))
}

/// Lowercase a byte string by ASCII case folding.
pub fn fold_bytes(s: &Vec<u8>) -> (r: Vec<u8>)
    ensures
        r@ == spec_fold(s@),
{
    let mut r: Vec<u8> = Vec::new();
    let mut i: usize = 0;
    while i < s.len()
        invariant
            i <= s.len(),
            r@ =~= spec_fold(s@.take(i as int)),
        decreases s.len() - i,
    {
        let b = s[i];
        if 65 <= b && b <= 90 {
            r.push(b + 32);
        } else {
            r.push(b);
        }
        assert(spec_fold(s@.take(i + 1 as int)) =~= spec_fold(s@.take(i as int)).push(
            spec_fold_byte(s@[i as int]),
        ));
        i = i + 1;
    }
    assert(s@.take(s@.len() as int) =~= s@);
    r
}

/// The target `t` occurs in `c` starting at position `i`.
pub open spec fn spec_matches_at(c: Seq<u8>, t: Seq<u8>, i: int) -> bool {
    &&& 0 <= i
    &&& i + t.len() <= c.len()
    &&& c.subrange(i, i + t.len()) == t
}

/// The target `t` occurs somewhere in `c` as a contiguous substring.
pub open spec fn spec_contains(c: Seq<u8>, t: Seq<u8>) -> bool {
    exists|i: int| spec_matches_at(c, t, i)
}

/// The number of non-overlapping occurrences of `t` in `c`, counted greedily
/// from the left. An empty target has no occurrences.
pub open spec fn spec_count(c: Seq<u8>, t: Seq<u8>) -> nat
    decreases c.len(),
{
    if t.len() == 0 || c.len() < t.len() {
        0
    } else if c.take(t.len() as int) == t {
        1 + spec_count(c.skip(t.len() as int), t)
    } else {
        spec_count(c.skip(1), t)
    }
}

/// Copy a byte string.
pub fn copy_bytes(s: &Vec<u8>) -> (r: Vec<u8>)
    ensures
        r@ == s@,
{
    let mut r: Vec<u8> = Vec::new();
    r.extend_from_slice(s.as_slice());
    assert(r@ =~= s@);
    r
}

/// Whether the two byte strings are equal.
pub fn bytes_eq(a: &Vec<u8>, b: &Vec<u8>) -> (r: bool)
    ensures
        r == (a@ == b@),
{
    if a.len() != b.len() {
        return false;
    }
    let mut i: usize = 0;
    while i < a.len()
        invariant
            i <= a.len(),
            a@.len() == b@.len(),
            forall|j: int| 0 <= j < i ==> a@[j] == b@[j],
        decreases a.len() - i,
    {
        if a[i] != b[i] {
            return false;
        }
        i = i + 1;
    }
    proof {
        assert(a@ =~= b@);
    }
    true
}

/// Whether `t` occurs in `c` starting at `i`, checked byte by byte.
fn matches_at(c: &Vec<u8>, t: &Vec<u8>, i: usize) -> (r: bool)
    requires
        i + t@.len() <= c@.len(),
    ensures
        r == spec_matches_at(c@, t@, i as int),
{
    let clen = c.len();
    let mut j: usize = 0;
    while j < t.len()
        invariant
            j <= t@.len(),
            i + t@.len() <= c@.len(),
            clen == c@.len(),
            forall|k: int| 0 <= k < j ==> c@[i + k] == t@[k],
        decreases t.len() - j,
    {
        if c[i + j] != t[j] {
            assert(c@.subrange(i as int, i + t@.len()) != t@) by {
                assert(c@.subrange(i as int, i + t@.len())[j as int] == c@[i + j]);
            }
            return false;
        }
        j = j + 1;
    }
    proof {
        assert(c@.subrange(i as int, i + t@.len()) =~= t@);
    }
    true
}

/// Whether `t` occurs anywhere in `c` as a contiguous substring.
pub fn contains_bytes(c: &Vec<u8>, t: &Vec<u8>) -> (r: bool)
    ensures
        r == spec_contains(c@, t@),
{
    if t.len() > c.len() {
        assert(!spec_contains(c@, t@)) by {
            assert(forall|i: int| !spec_matches_at(c@, t@, i));
        }
        return false;
    }
    if t.len() == 0 {
        assert(spec_matches_at(c@, t@, 0)) by {
            assert(c@.subrange(0, 0) =~= t@);
        }
        return true;
    }
    let mut i: usize = 0;
    let last = c.len() - t.len();
    while i <= last
        invariant
            i <= last + 1,
            last == c@.len() - t@.len(),
            1 <= t@.len() <= c@.len(),
            c@.len() <= usize::MAX,
            forall|k: int| 0 <= k < i ==> !spec_matches_at(c@, t@, k),
        decreases last - i + 1,
    {
        if matches_at(c, t, i) {
            assert(spec_contains(c@, t@));
            return true;
        }
        i = i + 1;
    }
    assert(forall|k: int| !spec_matches_at(c@, t@, k)) by {
        assert(forall|k: int| k > last ==> !spec_matches_at(c@, t@, k));
    }
    false
}

/// The count of non-overlapping occurrences never exceeds the content length
/// when the target is not empty.
pub proof fn lemma_count_le_len(c: Seq<u8>, t: Seq<u8>)
    requires
        t.len() > 0,
    ensures
        spec_count(c, t) <= c.len(),
    decreases c.len(),
{
    if c.len() < t.len() {
    } else if c.take(t.len() as int) == t {
        lemma_count_le_len(c.skip(t.len() as int), t);
    } else {
        lemma_count_le_len(c.skip(1), t);
    }
}

/// Count the non-overlapping occurrences of `t` in `c`, greedily from the
/// left, exactly as `spec_count` describes.
pub fn count_bytes(c: &Vec<u8>, t: &Vec<u8>) -> (r: usize)
    ensures
        r as nat == spec_count(c@, t@),
{
    if t.len() == 0 {
        return 0;
    }
    let mut count: usize = 0;
    let mut i: usize = 0;
    proof {
        assert(c@.skip(0) =~= c@);
        lemma_count_le_len(c@, t@);
    }
    while i < c.len()
        invariant
            i <= c@.len(),
            t@.len() > 0,
            spec_count(c@, t@) == count + spec_count(c@.skip(i as int), t@),
            count <= i,
        decreases c.len() - i,
    {
        let ghost rest = c@.skip(i as int);
        if c.len() - i >= t.len() && matches_at(c, t, i) {
            proof {
                assert(rest.take(t@.len() as int) =~= c@.subrange(i as int, i + t@.len()));
                assert(rest.skip(t@.len() as int) =~= c@.skip(i + t@.len()));
            }
            count = count + 1;
            i = i + t.len();
        } else {
            proof {
                if i + t@.len() <= c@.len() {
                    assert(rest.take(t@.len() as int) =~= c@.subrange(i as int, i + t@.len()));
                }
                assert(rest.len() < t@.len() ==> spec_count(rest, t@) == 0);
                assert(rest.skip(1) =~= c@.skip(i + 1));
            }
            i = i + 1;
        }
    }
    proof {
        assert(c@.skip(c@.len() as int) =~= Seq::<u8>::empty());
    }
    count
}

/// A string that contains the target at all has at least one counted
/// occurrence.
pub proof fn lemma_contains_count_pos(c: Seq<u8>, t: Seq<u8>)
    requires
        t.len() > 0,
        spec_contains(c, t),
    ensures
        spec_count(c, t) >= 1,
    decreases c.len(),
{
    let i = choose|i: int| spec_matches_at(c, t, i);
    if c.take(t.len() as int) == t {
    } else {
        assert(i != 0) by {
            if i == 0 {
                assert(c.subrange(0, t.len() as int) =~= c.take(t.len() as int));
            }
        }
        assert(spec_matches_at(c.skip(1), t, i - 1)) by {
            assert(c.skip(1).subrange(i - 1, i - 1 + t.len()) =~= c.subrange(i, i + t.len()));
        }
        lemma_contains_count_pos(c.skip(1), t);
    }
}

/// Appending one more copy of the target to the content strictly increases
/// the occurrence count.
pub proof fn lemma_count_append_target(c: Seq<u8>, t: Seq<u8>)
    requires
        t.len() > 0,
    ensures
        spec_count(c + t, t) > spec_count(c, t),
    decreases c.len(),
{
    let s = c + t;
    if c.len() == 0 {
        assert(s =~= t);
        assert(s.take(t.len() as int) =~= t);
        assert(spec_count(s, t) >= 1);
    } else if c.len() < t.len() {
        assert(spec_count(c, t) == 0);
        assert(spec_matches_at(s, t, c.len() as int)) by {
            assert(s.subrange(c.len() as int, (c.len() + t.len()) as int) =~= t);
        }
        lemma_contains_count_pos(s, t);
    } else if c.take(t.len() as int) == t {
        assert(s.take(t.len() as int) =~= c.take(t.len() as int));
        assert(s.skip(t.len() as int) =~= c.skip(t.len() as int) + t);
        lemma_count_append_target(c.skip(t.len() as int), t);
    } else {
        assert(s.take(t.len() as int) =~= c.take(t.len() as int));
        assert(s.skip(1) =~= c.skip(1) + t);
        lemma_count_append_target(c.skip(1), t);
    }
}

} // verus!
