//! The digest index: for each reference and each supported k-mer length, every
//! length-k window of the reference in order of its start.

use vstd::prelude::*;
use crate::dna::bytes_of;

verus! {

/// Shortest k-mer length the index covers.
pub const MIN_KMER_LEN: usize = 12;

/// One past the longest k-mer length the index covers.
pub const MAX_KMER_LEN: usize = 40;

/// How many length-`k` windows a sequence of length `n` has.
pub open spec fn digest_len(n: int, k: int) -> int {
    if k <= n + 1 {
        n - k + 1
    } else {
        0
    }
}

/// All length-`k` windows of `r`, by ascending start position.
pub open spec fn digest_of(r: Seq<u8>, k: int) -> Seq<Seq<u8>> {
    Seq::new(digest_len(r.len() as int, k) as nat, |i: int| r.subrange(i, i + k))
}

/// The contents of a list of byte slices.
pub open spec fn slice_views(v: Seq<&[u8]>) -> Seq<Seq<u8>> {
    v.map_values(|s: &[u8]| s@)
}

/// The bytes of each reference.
pub open spec fn ref_bytes(refs: Seq<String>) -> Seq<Seq<u8>> {
    refs.map_values(|s: String| bytes_of(s@))
}

/// A k-mer length that the index covers.
pub open spec fn is_indexed_len(k: int) -> bool {
    MIN_KMER_LEN <= k < MAX_KMER_LEN
}

/// Every length-`k` window of `query`, in order; each window borrows from `query`.
pub fn kmer_digest<'a>(query: &'a [u8], k: usize) -> (r: Vec<&'a [u8]>)
    ensures
        slice_views(r@) == digest_of(query@, k as int),
{
    let n = query.len();
    let mut out: Vec<&'a [u8]> = Vec::new();
    if k > n {
        assert(slice_views(out@) =~= digest_of(query@, k as int));
        return out;
    }
    let last = n - k;
    let mut index: usize = 0;
    loop
        invariant_except_break
            n == query@.len(),
            k <= n,
            last == n - k,
            index <= last,
            slice_views(out@) =~= digest_of(query@, k as int).subrange(0, index as int),
        ensures
            slice_views(out@) =~= digest_of(query@, k as int),
        decreases last - index,
    {
        let window = vstd::slice::slice_subrange(query, index, index + k);
        assert(window@ == digest_of(query@, k as int)[index as int]);
        let ghost before = out@;
        out.push(window);
        assert(out@ == before.push(window));
        assert(slice_views(out@) =~= slice_views(before).push(window@));
        assert(slice_views(out@) =~= digest_of(query@, k as int).subrange(0, index + 1));
        if index == last {
            break;
        }
        index = index + 1;
    }
    assert(slice_views(out@) =~= digest_of(query@, k as int));
    out
}

/// For each reference (outer) and each covered length (inner, from `MIN_KMER_LEN`),
/// the windows of that length. Shared read-only once built.
pub struct DigestIndex<'a> {
    pub digests: Vec<Vec<Vec<&'a [u8]>>>,
}

impl<'a> DigestIndex<'a> {
    /// The windows held for reference `r` and length `k`.
    pub open spec fn entries(&self, r: int, k: int) -> Seq<Seq<u8>> {
        slice_views(self.digests@[r]@[k - MIN_KMER_LEN]@)
    }

    /// Every reference has one list for each covered length, and each list holds
    /// windows of its length.
    pub open spec fn wf(&self) -> bool {
        &&& forall|r: int|
            0 <= r < self.digests@.len() ==> #[trigger] self.digests@[r]@.len() == MAX_KMER_LEN
                - MIN_KMER_LEN
        &&& forall|r: int, k: int, i: int|
            0 <= r < self.digests@.len() && is_indexed_len(k) && 0 <= i < self.entries(r, k).len()
                ==> #[trigger] self.entries(r, k)[i].len() == k
    }

    /// The index holds exactly the digests of `refs` for every covered length.
    pub open spec fn indexes(&self, refs: Seq<Seq<u8>>) -> bool {
        &&& self.wf()
        &&& self.digests@.len() == refs.len()
        &&& forall|r: int, k: int|
            0 <= r < refs.len() && is_indexed_len(k) ==> #[trigger] self.entries(r, k)
                == digest_of(refs[r], k)
    }

    /// The windows of length `k` of reference `ref_index`; `None` where the index
    /// holds no such list.
    pub fn get(&self, ref_index: usize, k: usize) -> (r: Option<&Vec<&'a [u8]>>)
        requires
            self.wf(),
        ensures
            r is Some <==> ref_index < self.digests@.len() && is_indexed_len(k as int),
            r is Some ==> slice_views(r->0@) == self.entries(ref_index as int, k as int),
    {
        if ref_index < self.digests.len() && MIN_KMER_LEN <= k && k < MAX_KMER_LEN {
            Some(&self.digests[ref_index][k - MIN_KMER_LEN])
        } else {
            None
        }
    }
}

/// Builds the digest of every reference for every covered length.
pub fn gen_digest_map<'a>(referance_seq: &'a Vec<String>) -> (r: DigestIndex<'a>)
    ensures
        r.indexes(ref_bytes(referance_seq@)),
{
    let n = referance_seq.len();
    let mut digests: Vec<Vec<Vec<&'a [u8]>>> = Vec::new();
    let mut ref_index: usize = 0;
    while ref_index < n
        invariant
            n == referance_seq@.len(),
            ref_index <= n,
            (DigestIndex { digests }).indexes(ref_bytes(referance_seq@).subrange(0, ref_index as int)),
        decreases n - ref_index,
    {
        let ref_seq: &'a String = &referance_seq[ref_index];
        let bytes: &'a [u8] = ref_seq.as_str().as_bytes();
        let mut per_len: Vec<Vec<&'a [u8]>> = Vec::new();
        let mut k: usize = MIN_KMER_LEN;
        while k < MAX_KMER_LEN
            invariant
                MIN_KMER_LEN <= k <= MAX_KMER_LEN,
                per_len@.len() == k - MIN_KMER_LEN,
                forall|kk: int|
                    MIN_KMER_LEN <= kk < k ==> #[trigger] slice_views(per_len@[kk - MIN_KMER_LEN]@)
                        == digest_of(bytes@, kk),
            decreases MAX_KMER_LEN - k,
        {
            per_len.push(kmer_digest(bytes, k));
            k = k + 1;
        }
        let ghost prev = DigestIndex { digests };
        let ghost old_digests = digests@;
        let ghost old_refs = ref_bytes(referance_seq@).subrange(0, ref_index as int);
        digests.push(per_len);
        ref_index = ref_index + 1;
        proof {
            let refs = ref_bytes(referance_seq@).subrange(0, ref_index as int);
            let idx = DigestIndex { digests };
            assert(refs[ref_index - 1] == bytes@);
            assert forall|r: int, kk: int|
                0 <= r < refs.len() && is_indexed_len(kk) implies #[trigger] idx.entries(r, kk)
                == digest_of(refs[r], kk) by {
                if r < ref_index - 1 {
                    assert(old_refs[r] == refs[r]);
                    assert(digests@[r] == old_digests[r]);
                    assert(prev.entries(r, kk) == digest_of(old_refs[r], kk));
                } else {
                    assert(digests@[r] == per_len);
                    assert(slice_views(per_len@[kk - MIN_KMER_LEN]@) == digest_of(bytes@, kk));
                }
            }
            assert forall|r: int, kk: int, i: int|
                0 <= r < idx.digests@.len() && is_indexed_len(kk) && 0 <= i < idx.entries(
                    r,
                    kk,
                ).len() implies #[trigger] idx.entries(r, kk)[i].len() == kk by {
                assert(idx.entries(r, kk) == digest_of(refs[r], kk));
            }
        }
    }
    assert(ref_bytes(referance_seq@).subrange(0, n as int) =~= ref_bytes(referance_seq@));
    DigestIndex { digests }
}

/// Where the index holds the digests of `refs`, the list for reference `r` and
/// length `k` has one window per start position, and the window at `i` begins
/// with base `i` of the reference.
pub proof fn lemma_digest_windows(index: DigestIndex, refs: Seq<Seq<u8>>, r: int, k: int)
    requires
        index.indexes(refs),
        0 <= r < refs.len(),
        is_indexed_len(k),
        k <= refs[r].len() + 1,
    ensures
        index.entries(r, k).len() == refs[r].len() - k + 1,
        forall|i: int|
            0 <= i < index.entries(r, k).len() ==> #[trigger] index.entries(r, k)[i][0]
                == refs[r][i],
{
    assert(index.entries(r, k) == digest_of(refs[r], k));
}

} // verus!
