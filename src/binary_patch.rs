//! Finding a byte pattern in an emitted PDF and overwriting bytes in place.
use vstd::prelude::*;

verus! {

/// `needle` stands in `haystack` from offset `i` on.
pub open spec fn occurs_at(haystack: Seq<u8>, needle: Seq<u8>, i: int) -> bool {
    0 <= i && i + needle.len() <= haystack.len() && haystack.subrange(i, i + needle.len())
        == needle
}

/// `i` is the first offset at which `needle` stands in `haystack`.
pub open spec fn is_first_occurrence(haystack: Seq<u8>, needle: Seq<u8>, i: int) -> bool {
    occurs_at(haystack, needle, i) && forall|j: int| 0 <= j < i ==> !occurs_at(haystack, needle, j)
}

/// `buf` with the bytes from `offset` on replaced by `replacement`; its length stays.
pub open spec fn spliced(buf: Seq<u8>, offset: int, replacement: Seq<u8>) -> Seq<u8> {
    buf.subrange(0, offset) + replacement + buf.subrange(offset + replacement.len(), buf.len() as int)
}

/// Whether `needle` stands in `haystack` at offset `i`.
pub(crate) fn matches_at(haystack: &[u8], needle: &[u8], i: usize) -> (r: bool)
    requires
        i + needle@.len() <= haystack@.len(),
    ensures
        r == occurs_at(haystack@, needle@, i as int),
{
    let _len = haystack.len();
    let mut k: usize = 0;
    while k < needle.len()
        invariant
            k <= needle@.len(),
            i + needle@.len() <= haystack@.len(),
            haystack@.len() <= usize::MAX,
            forall|m: int| 0 <= m < k ==> haystack@[i + m] == needle@[m],
        decreases needle@.len() - k,
    {
        if haystack[i + k] != needle[k] {
            assert(haystack@.subrange(i as int, i + needle@.len())[k as int] != needle@[k as int]);
            return false;
        }
        k = k + 1;
    }
    assert(haystack@.subrange(i as int, i + needle@.len()) =~= needle@);
    true
}

/// The offset of the first occurrence of `pattern` in `bytes`; `None` where it
/// does not occur, or where either is empty.
pub fn find_binary_pattern(bytes: &[u8], pattern: &[u8]) -> (r: Option<usize>)
    ensures
        r matches Some(i) ==> pattern@.len() > 0 && is_first_occurrence(bytes@, pattern@, i as int),
        r is None ==> bytes@.len() == 0 || pattern@.len() == 0 || forall|j: int|
            !occurs_at(bytes@, pattern@, j),
{
    if bytes.len() == 0 || pattern.len() == 0 || pattern.len() > bytes.len() {
        return None;
    }
    let last = bytes.len() - pattern.len();
    let mut i: usize = 0;
    while i <= last
        invariant
            last == bytes@.len() - pattern@.len(),
            pattern@.len() >= 1,
            bytes@.len() <= usize::MAX,
            i <= last + 1,
            forall|j: int| 0 <= j < i ==> !occurs_at(bytes@, pattern@, j),
        decreases last + 1 - i,
    {
        if matches_at(bytes, pattern, i) {
            return Some(i);
        }
        i = i + 1;
    }
    None
}

/// Overwrites `buf[offset .. offset + replacement.len()]` with `replacement`.
pub fn splice(buf: &mut Vec<u8>, offset: usize, replacement: &[u8])
    requires
        offset + replacement@.len() <= old(buf)@.len(),
    ensures
        final(buf)@ == spliced(old(buf)@, offset as int, replacement@),
{
    let ghost start = buf@;
    let _len = buf.len();
    let mut k: usize = 0;
    while k < replacement.len()
        invariant
            offset + replacement@.len() <= start.len(),
            start.len() <= usize::MAX,
            k <= replacement@.len(),
            buf@.len() == start.len(),
            forall|m: int| 0 <= m < buf@.len() ==> #[trigger] buf@[m] == if offset <= m < offset + k {
                replacement@[m - offset]
            } else {
                start[m]
            },
        decreases replacement@.len() - k,
    {
        buf.set(offset + k, replacement[k]);
        k = k + 1;
    }
    assert(buf@ =~= spliced(start, offset as int, replacement@));
}

/// Where `needle` occurs at `k`, it has a first occurrence, at `k` or before.
pub proof fn lemma_first_occurrence_exists(haystack: Seq<u8>, needle: Seq<u8>, k: int)
    requires
        occurs_at(haystack, needle, k),
    ensures
        exists|i: int| i <= k && is_first_occurrence(haystack, needle, i),
    decreases k,
{
    if forall|j: int| 0 <= j < k ==> !occurs_at(haystack, needle, j) {
        assert(is_first_occurrence(haystack, needle, k));
    } else {
        let j = choose|j: int| 0 <= j < k && occurs_at(haystack, needle, j);
        lemma_first_occurrence_exists(haystack, needle, j);
    }
}

} // verus!
