//! Byte-level substring search, used to detect the spoken termination
//! phrase inside translated text.

use vstd::prelude::*;

verus! {

/// `needle` occurs in `hay` as a contiguous run starting at position `i`.
pub open spec fn matches_at(hay: Seq<u8>, needle: Seq<u8>, i: int) -> bool {
    &&& 0 <= i
    &&& i + needle.len() <= hay.len()
    &&& forall|k: int| 0 <= k < needle.len() ==> hay[i + k] == needle[k]
}

/// `needle` occurs somewhere in `hay` as a contiguous run.
pub open spec fn contains_subseq(hay: Seq<u8>, needle: Seq<u8>) -> bool {
    exists|i: int| matches_at(hay, needle, i)
}

/// Whether `needle` occurs in `hay` starting exactly at position `i`.
fn match_at(hay: &[u8], needle: &[u8], i: usize) -> (r: bool)
    requires
        i + needle@.len() <= hay@.len(),
    ensures
        r == matches_at(hay@, needle@, i as int),
{
    let n = needle.len();
    let hlen = hay.len();
    let mut k: usize = 0;
    while k < n
        invariant
            k <= n,
            n == needle@.len(),
            hlen == hay@.len(),
            i + n <= hlen,
            forall|j: int| 0 <= j < k ==> hay@[i + j] == needle@[j],
        decreases n - k,
    {
        if hay[i + k] != needle[k] {
            return false;
        }
        k = k + 1;
    }
    true
}

/// Whether `needle` occurs anywhere in `hay` as a contiguous subsequence.
pub fn contains_slice(hay: &[u8], needle: &[u8]) -> (r: bool)
    ensures
        r == contains_subseq(hay@, needle@),
{
    if needle.len() > hay.len() {
        assert(forall|i: int| !matches_at(hay@, needle@, i));
        return false;
    }
    if needle.len() == 0 {
        assert(matches_at(hay@, needle@, 0));
        return true;
    }
    let hlen = hay.len();
    let last = hlen - needle.len();
    let mut i: usize = 0;
    while i <= last
        invariant
            hlen == hay@.len(),
            1 <= needle@.len() <= hay@.len(),
            last == hay@.len() - needle@.len(),
            i <= last + 1,
            forall|j: int| 0 <= j < i ==> !matches_at(hay@, needle@, j),
        decreases last + 1 - i,
    {
        if match_at(hay, needle, i) {
            assert(contains_subseq(hay@, needle@));
            return true;
        }
        i = i + 1;
    }
    assert forall|j: int| !matches_at(hay@, needle@, j) by {
        if matches_at(hay@, needle@, j) {
            assert(0 <= j <= last);
        }
    }
    false
}

} // verus!
