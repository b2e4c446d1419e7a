//! Finding an address by a byte pattern.
//!
//! The scanner looks through the image of a module for a pattern in which some
//! positions are wildcards, and finds the first place at which it matches. It
//! moves through the image in ascending order. After a mismatch it falls back on
//! the pattern's failure table as long as no wildcard is among the positions
//! that were matched: what the table knows of the pattern's bytes then holds of
//! the image too. Once a wildcard was matched, the image may hold any byte
//! under it, so the scanner tries the next offset from the start of the pattern.

use vstd::prelude::*;

verus! {

/// The span of memory that a module occupies.
#[derive(Clone, Copy, Debug, PartialEq, Eq, Structural)]
pub struct AddressFinder {
    pub base_addr: usize,
    pub module_size: usize,
}

/// Whether position `j` of the pattern is a wildcard.
pub open spec fn is_wild(wildcards: Seq<usize>, j: int) -> bool {
    exists|w: int| 0 <= w < wildcards.len() && #[trigger] wildcards[w] as int == j
}

/// Whether a byte of the image satisfies position `j` of the pattern.
pub open spec fn hits(pat: Seq<u8>, wildcards: Seq<usize>, j: int, byte: u8) -> bool {
    pat[j] == byte || is_wild(wildcards, j)
}

/// Whether the pattern matches the image at offset `k`, wildcard positions
/// matching any byte.
pub open spec fn matches_at(image: Seq<u8>, pat: Seq<u8>, wildcards: Seq<usize>, k: int) -> bool {
    &&& 0 <= k
    &&& k + pat.len() <= image.len()
    &&& forall|j: int| 0 <= j < pat.len() ==> hits(pat, wildcards, j, #[trigger] image[k + j])
}

/// Whether `k` is the lowest offset at which the pattern matches the image.
pub open spec fn is_first_match(
    image: Seq<u8>,
    pat: Seq<u8>,
    wildcards: Seq<usize>,
    k: int,
) -> bool {
    &&& matches_at(image, pat, wildcards, k)
    &&& forall|lower: int| 0 <= lower < k ==> !matches_at(image, pat, wildcards, lower)
}

/// Whether the pattern matches the image nowhere.
pub open spec fn no_match(image: Seq<u8>, pat: Seq<u8>, wildcards: Seq<usize>) -> bool {
    forall|k: int| !matches_at(image, pat, wildcards, k)
}

/// Whether the first `k` bytes of the pattern are also the last `k` of its first
/// `n` bytes, with `k` below `n`: a border of that prefix.
pub open spec fn is_border(pat: Seq<u8>, n: int, k: int) -> bool {
    &&& 0 <= k < n <= pat.len()
    &&& forall|t: int| 0 <= t < k ==> #[trigger] pat[t] == pat[n - k + t]
}

/// Whether the pattern's first `n` bytes have no border longer than `k`.
pub open spec fn no_border_above(pat: Seq<u8>, n: int, k: int) -> bool {
    forall|longer: int| k < longer < n ==> !#[trigger] is_border(pat, n, longer)
}

/// Whether `k` is the length of the longest border of the pattern's first `n` bytes.
pub open spec fn is_longest_border(pat: Seq<u8>, n: int, k: int) -> bool {
    &&& is_border(pat, n, k)
    &&& no_border_above(pat, n, k)
}

/// A border of a border is a border.
proof fn lemma_border_of_border(pat: Seq<u8>, n: int, k: int, inner: int)
    requires
        is_border(pat, n, k),
        is_border(pat, k, inner),
    ensures
        is_border(pat, n, inner),
{
    assert forall|t: int| 0 <= t < inner implies #[trigger] pat[t] == pat[n - inner + t] by {
        assert(pat[t] == pat[k - inner + t]);
        assert(pat[k - inner + t] == pat[n - k + (k - inner + t)]);
    }
}

/// A border of a prefix, cut by one byte, is a border of the prefix cut by one byte.
proof fn lemma_border_shrinks(pat: Seq<u8>, n: int, k: int)
    requires
        is_border(pat, n + 1, k + 1),
        k >= 0,
    ensures
        is_border(pat, n, k),
        pat[k] == pat[n],
{
    assert forall|t: int| 0 <= t < k implies #[trigger] pat[t] == pat[n - k + t] by {
        assert(pat[t] == pat[(n + 1) - (k + 1) + t]);
    }
    assert(pat[k] == pat[(n + 1) - (k + 1) + k]);
}

/// A shorter border of a prefix is a border of each longer border of it.
proof fn lemma_border_within(pat: Seq<u8>, n: int, k: int, inner: int)
    requires
        is_border(pat, n, k),
        is_border(pat, n, inner),
        inner < k,
    ensures
        is_border(pat, k, inner),
{
    assert forall|t: int| 0 <= t < inner implies #[trigger] pat[t] == pat[k - inner + t] by {
        assert(pat[t] == pat[n - inner + t]);
        assert(pat[k - inner + t] == pat[n - k + (k - inner + t)]);
    }
}

/// Fills in the failure table of the first `m` bytes of a pattern: `lps[i]`
/// becomes the length of the longest border of the first `i + 1` bytes. Entry 0
/// is set to zero in any case; entries from `m` on are left as they were.
pub fn compute_lps_array(pat: &Vec<u8>, m: usize, lps: &mut Vec<usize>)
    requires
        m <= pat@.len(),
        m <= old(lps)@.len(),
        old(lps)@.len() >= 1,
    ensures
        final(lps)@.len() == old(lps)@.len(),
        final(lps)@[0] == 0,
        forall|i: int| 0 <= i < m ==> is_longest_border(pat@, i + 1, #[trigger] final(lps)@[i] as int),
        forall|i: int| 1 <= i < final(lps)@.len() && m <= i ==> final(lps)@[i] == old(lps)@[i],
{
    let mut len: usize = 0;
    lps[0] = 0;
    if m == 0 {
        return ;
    }
    let mut i: usize = 1;
    assert(is_longest_border(pat@, 1, 0));
    while i < m
        invariant
            1 <= i <= m,
            m <= pat@.len(),
            m <= lps@.len(),
            lps@.len() == old(lps)@.len(),
            lps@[0] == 0,
            len < i,
            forall|t: int| 0 <= t < i && t < m ==> is_longest_border(pat@, t + 1, #[trigger] lps@[t] as int),
            forall|t: int| i <= t < lps@.len() ==> lps@[t] == old(lps)@[t],
            is_border(pat@, i as int, len as int),
            no_border_above(pat@, i + 1, len + 1),
        decreases m - i, len,
    {
        let ghost n = i as int;
        let ghost k = len as int;
        if pat[i] == pat[len] {
            proof {
                assert forall|t: int| 0 <= t < k + 1 implies #[trigger] pat@[t] == pat@[n + 1 - (k
                    + 1) + t] by {
                    if t < k {
                        assert(pat@[t] == pat@[n - k + t]);
                    }
                }
                assert(is_longest_border(pat@, n + 1, k + 1));
                assert forall|longer: int| k + 2 < longer < n + 2 implies !#[trigger] is_border(
                    pat@,
                    n + 2,
                    longer,
                ) by {
                    if is_border(pat@, n + 2, longer) {
                        lemma_border_shrinks(pat@, n + 1, longer - 1);
                        assert(is_border(pat@, n + 1, longer - 1));
                    }
                }
            }
            len = len + 1;
            lps[i] = len;
            i = i + 1;
        } else if len != 0 {
            let back = lps[len - 1];
            proof {
                let b = back as int;
                assert(is_longest_border(pat@, k, b));
                lemma_border_of_border(pat@, n, k, b);
                assert forall|longer: int| b + 1 < longer < n + 1 implies !#[trigger] is_border(
                    pat@,
                    n + 1,
                    longer,
                ) by {
                    if is_border(pat@, n + 1, longer) {
                        lemma_border_shrinks(pat@, n, longer - 1);
                        if longer == k + 1 {
                            assert(pat@[k] == pat@[n]);
                        } else if longer < k + 1 {
                            lemma_border_within(pat@, n, k, longer - 1);
                            assert(is_border(pat@, k, longer - 1));
                        }
                    }
                }
            }
            len = back;
        } else {
            proof {
                assert forall|longer: int| 0 < longer < n + 1 implies !#[trigger] is_border(
                    pat@,
                    n + 1,
                    longer,
                ) by {
                    if is_border(pat@, n + 1, longer) {
                        lemma_border_shrinks(pat@, n, longer - 1);
                    }
                }
                assert(is_longest_border(pat@, n + 1, 0));
                assert forall|longer: int| 1 < longer < n + 2 implies !#[trigger] is_border(
                    pat@,
                    n + 2,
                    longer,
                ) by {
                    if is_border(pat@, n + 2, longer) {
                        lemma_border_shrinks(pat@, n + 1, longer - 1);
                        assert(is_border(pat@, n + 1, longer - 1));
                    }
                }
            }
            lps[i] = 0;
            i = i + 1;
        }
    }
}

fn is_wildcard(wildcards: &Vec<usize>, j: usize) -> (wild: bool)
    ensures
        wild == is_wild(wildcards@, j as int),
{
    let mut w: usize = 0;
    while w < wildcards.len()
        invariant
            w <= wildcards@.len(),
            forall|v: int| 0 <= v < w ==> #[trigger] wildcards@[v] as int != j,
        decreases wildcards@.len() - w,
    {
        if wildcards[w] == j {
            return true;
        }
        w = w + 1;
    }
    false
}

/// Finds the lowest wildcard position of a pattern of `m` bytes; `m` if none of
/// its positions is a wildcard.
fn first_wildcard(wildcards: &Vec<usize>, m: usize) -> (first: usize)
    ensures
        first <= m,
        forall|j: int| 0 <= j < first ==> !is_wild(wildcards@, j),
{
    let mut first: usize = m;
    let mut w: usize = 0;
    while w < wildcards.len()
        invariant
            w <= wildcards@.len(),
            first <= m,
            forall|v: int| 0 <= v < w ==> #[trigger] wildcards@[v] >= first,
        decreases wildcards@.len() - w,
    {
        if wildcards[w] < first {
            first = wildcards[w];
        }
        w = w + 1;
    }
    first
}

impl AddressFinder {
    /// Whether `image` is the content of the module's span, and the span lies
    /// within the address space.
    pub open spec fn holds(&self, image: Seq<u8>) -> bool {
        image.len() == self.module_size && self.base_addr + self.module_size <= usize::MAX
    }

    /// Scans the module's image for a pattern and returns the first address at
    /// which it matches, or zero if it matches nowhere. `wildcards` lists the
    /// positions of the pattern that match any byte; positions beyond the
    /// pattern's end change nothing. The empty pattern matches at the base.
    pub fn find_pattern_addr(&self, image: &[u8], pat: Vec<u8>, wildcards: Vec<usize>) -> (addr:
        usize)
        requires
            self.holds(image@),
        ensures
            no_match(image@, pat@, wildcards@) ==> addr == 0,
            !no_match(image@, pat@, wildcards@) ==> addr >= self.base_addr && is_first_match(
                image@,
                pat@,
                wildcards@,
                addr - self.base_addr,
            ),
            forall|k: int|
                is_first_match(image@, pat@, wildcards@, k) ==> addr == self.base_addr + k,
    {
        let base = self.base_addr;
        let m: usize = pat.len();
        let n: usize = image.len();
        if m == 0 {
            assert(is_first_match(image@, pat@, wildcards@, 0));
            return base;
        }
        let mut lps: Vec<usize> = vec![0; m];
        compute_lps_array(&pat, m, &mut lps);
        let first = first_wildcard(&wildcards, m);
        let mut i: usize = 0;
        let mut j: usize = 0;
        while n - i >= m - j
            invariant
                j < m,
                j <= i <= n,
                m == pat@.len(),
                n == image@.len(),
                base == self.base_addr,
                base + n <= usize::MAX,
                first <= m,
                lps@.len() == m,
                forall|t: int| 0 <= t < first ==> !is_wild(wildcards@, t),
                forall|t: int| 0 <= t < m ==> is_longest_border(pat@, t + 1, #[trigger] lps@[t] as int),
                forall|s: int|
                    0 <= s < j ==> hits(pat@, wildcards@, s, #[trigger] image@[i - j + s]),
                forall|k: int| 0 <= k < i - j ==> !matches_at(image@, pat@, wildcards@, k),
            decreases n - (i - j), m - j,
        {
            let ghost start = i - j;
            let ghost matched = j as int;
            let byte: u8 = image[i];
            let pattern_byte: u8 = pat[j];
            if pattern_byte == byte || is_wildcard(&wildcards, j) {
                j = j + 1;
                i = i + 1;
                assert forall|s: int| 0 <= s < j implies hits(
                    pat@,
                    wildcards@,
                    s,
                    #[trigger] image@[i - j + s],
                ) by {
                    assert(image@[i - j + s] == image@[start + s]);
                }
                if j == m {
                    assert(matches_at(image@, pat@, wildcards@, start)) by {
                        assert forall|s: int| 0 <= s < m implies hits(
                            pat@,
                            wildcards@,
                            s,
                            #[trigger] image@[start + s],
                        ) by {
                            assert(image@[start + s] == image@[i - j + s]);
                        }
                    }
                    assert(is_first_match(image@, pat@, wildcards@, start));
                    return base + i - j;
                }
            } else {
                assert(!matches_at(image@, pat@, wildcards@, start)) by {
                    if matches_at(image@, pat@, wildcards@, start) {
                        assert(hits(pat@, wildcards@, matched, image@[start + matched]));
                    }
                }
                if j == 0 {
                    i = i + 1;
                } else if j <= first {
                    // No wildcard was matched: the matched bytes of the image
                    // are the pattern's own, and the table applies to them.
                    let back = lps[j - 1];
                    proof {
                        let b = back as int;
                        assert(is_longest_border(pat@, (matched - 1) + 1, lps@[matched - 1] as int));
                        assert forall|t: int| 0 <= t < b implies hits(
                            pat@,
                            wildcards@,
                            t,
                            #[trigger] image@[i - b + t],
                        ) by {
                            let s = matched - b + t;
                            assert(hits(pat@, wildcards@, s, image@[start + s]));
                            assert(pat@[t] == pat@[matched - b + t]);
                        }
                        assert forall|k: int| 0 <= k < i - b implies !matches_at(
                            image@,
                            pat@,
                            wildcards@,
                            k,
                        ) by {
                            if k > start && matches_at(image@, pat@, wildcards@, k) {
                                let d = k - start;
                                assert(!is_border(pat@, matched, matched - d));
                                let t = choose|t: int|
                                    0 <= t < matched - d && #[trigger] pat@[t] != pat@[matched - (
                                    matched - d) + t];
                                assert(hits(pat@, wildcards@, t, image@[k + t]));
                                assert(hits(pat@, wildcards@, t + d, image@[start + (t + d)]));
                                assert(k + t == start + (t + d));
                            }
                        }
                    }
                    j = back;
                } else {
                    // A wildcard was matched: the table says nothing of the byte
                    // under it, so the next offset is tried from the start.
                    i = i - j + 1;
                    j = 0;
                }
            }
        }
        assert forall|k: int| !matches_at(image@, pat@, wildcards@, k) by {
            if matches_at(image@, pat@, wildcards@, k) {
                assert(k + m <= n);
                assert(k < i - j);
            }
        }
        0
    }
}

} // verus!
