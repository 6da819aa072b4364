//! Comparison and search on byte strings.

use vstd::prelude::*;

verus! {

/// `needle` stands in `hay` at offset `i`.
pub open spec fn occurs_at(hay: Seq<u8>, needle: Seq<u8>, i: int) -> bool {
    &&& 0 <= i
    &&& i + needle.len() <= hay.len()
    &&& hay.subrange(i, i + needle.len()) == needle
}

/// `needle` stands somewhere in `hay`.
pub open spec fn contains(hay: Seq<u8>, needle: Seq<u8>) -> bool {
    exists|i: int| occurs_at(hay, needle, i)
}

/// Octet-exact equality of two byte strings.
pub fn same_bytes(a: &[u8], b: &[u8]) -> (r: bool)
    ensures
        r == (a@ == b@),
{
    if a.len() != b.len() {
        return false;
    }
    let mut i: usize = 0;
    while i < a.len()
        invariant
            i <= a.len(),
            a.len() == b.len(),
            forall|k: int| 0 <= k < i ==> a@[k] == b@[k],
        decreases a.len() - i,
    {
        if a[i] != b[i] {
            return false;
        }
        i += 1;
    }
    assert(a@ =~= b@);
    true
}

/// Whether `needle` stands in `hay` at offset `at`.
pub fn matches_at(hay: &[u8], needle: &[u8], at: usize) -> (r: bool)
    ensures
        r == occurs_at(hay@, needle@, at as int),
{
    if needle.len() > hay.len() || at > hay.len() - needle.len() {
        return false;
    }
    let mut k: usize = 0;
    while k < needle.len()
        invariant
            k <= needle.len(),
            at + needle.len() <= hay.len(),
            forall|j: int| 0 <= j < k ==> hay@[at + j] == needle@[j],
        decreases needle.len() - k,
    {
        if hay[at + k] != needle[k] {
            assert(hay@.subrange(at as int, at + needle.len())[k as int] == hay@[at + k]);
            return false;
        }
        k += 1;
    }
    assert(hay@.subrange(at as int, at + needle.len()) =~= needle@);
    true
}

/// Whether `needle` stands somewhere in `hay`; the empty needle stands in
/// every byte string.
pub fn find(hay: &[u8], needle: &[u8]) -> (r: bool)
    ensures
        r == contains(hay@, needle@),
{
    if needle.len() > hay.len() {
        return false;
    }
    let last: usize = hay.len() - needle.len();
    let mut i: usize = 0;
    while i < last
        invariant
            i <= last,
            last == hay.len() - needle.len(),
            forall|k: int| 0 <= k < i ==> !occurs_at(hay@, needle@, k),
        decreases last - i,
    {
        if matches_at(hay, needle, i) {
            return true;
        }
        i += 1;
    }
    matches_at(hay, needle, last)
}

} // verus!
