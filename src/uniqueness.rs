//! Deciding whether a candidate, or its reverse complement, binds a reference
//! anywhere other than at its expected site.

use vstd::prelude::*;
use crate::digest::{DigestIndex, digest_of, is_indexed_len, slice_views};
use crate::dna::{
    all_dna, bytes_of, generate_all_seqs, is_dna, lemma_dna_bytes, lemma_revcomp_dna,
    strand_variants, views,
};
use crate::similarity::{calc_sim_iter, similarity};

verus! {

/// Which end of a candidate its anchor marks.
#[derive(Clone, Copy, Debug, PartialEq, Eq, Structural)]
pub enum AnchorKind {
    /// The anchor is the position of the first base.
    Start,
    /// The anchor is the position just past the last base.
    End,
}

/// The digest position at which a candidate of this kind, anchor and length
/// expects its own match.
pub open spec fn expected_site(kind: AnchorKind, anchor: int, len: int) -> int {
    match kind {
        AnchorKind::Start => anchor,
        AnchorKind::End => anchor - len,
    }
}

/// The position to leave out of the count for a variant of length `len`:
/// none when no site is given.
pub open spec fn skipped_site(site: Option<(AnchorKind, usize)>, len: int) -> Option<int> {
    match site {
        Some((kind, anchor)) => Some(expected_site(kind, anchor as int, len)),
        None => None,
    }
}

/// The site to leave out under a policy: with `detect_expected` every hit counts.
pub open spec fn policy_site(kind: AnchorKind, anchor: usize, detect_expected: bool) -> Option<
    (AnchorKind, usize),
> {
    if detect_expected {
        None
    } else {
        Some((kind, anchor))
    }
}

/// `w` lies within `mismatch` differences of `v`.
pub open spec fn is_hit(v: Seq<u8>, w: Seq<u8>, mismatch: int) -> bool {
    similarity(v, w) + mismatch >= v.len()
}

/// No window of `digest` is a hit for `v`, leaving out position `skip`.
pub open spec fn no_hit(v: Seq<u8>, digest: Seq<Seq<u8>>, mismatch: int, skip: Option<int>) -> bool {
    forall|i: int|
        0 <= i < digest.len() && skip != Some(i) ==> !is_hit(v, #[trigger] digest[i], mismatch)
}

/// Every strand variant of `seqs` has no hit in the windows of its own length
/// that `lookup` gives.
pub open spec fn unique_with(
    seqs: Seq<Seq<char>>,
    site: Option<(AnchorKind, usize)>,
    lookup: spec_fn(int) -> Seq<Seq<u8>>,
    mismatch: int,
) -> bool {
    forall|j: int|
        0 <= j < strand_variants(seqs).len() ==> no_hit(
            bytes_of(#[trigger] strand_variants(seqs)[j]),
            lookup(bytes_of(strand_variants(seqs)[j]).len() as int),
            mismatch,
            skipped_site(site, bytes_of(strand_variants(seqs)[j]).len() as int),
        )
}

/// The candidate sequences `seqs` are unique at reference `r`.
pub open spec fn unique_at(
    seqs: Seq<Seq<char>>,
    site: Option<(AnchorKind, usize)>,
    r: Seq<u8>,
    mismatch: int,
) -> bool {
    unique_with(seqs, site, |k: int| digest_of(r, k), mismatch)
}

/// The candidate sequences are unique at the reference `ref_index` of `index`.
pub open spec fn unique_in_index(
    seqs: Seq<Seq<char>>,
    site: Option<(AnchorKind, usize)>,
    index: DigestIndex,
    ref_index: int,
    mismatch: int,
) -> bool {
    unique_with(seqs, site, |k: int| index.entries(ref_index, k), mismatch)
}

/// The candidate sequences are unique at every reference.
pub open spec fn unique_everywhere(
    seqs: Seq<Seq<char>>,
    site: Option<(AnchorKind, usize)>,
    refs: Seq<Seq<u8>>,
    mismatch: int,
) -> bool {
    forall|r: int| 0 <= r < refs.len() ==> #[trigger] unique_at(seqs, site, refs[r], mismatch)
}

/// Every sequence is a nucleotide sequence of a length the index covers.
pub open spec fn seqs_ok(seqs: Seq<String>) -> bool {
    &&& all_dna(seqs)
    &&& forall|j: int| 0 <= j < seqs.len() ==> is_indexed_len(#[trigger] seqs[j]@.len() as int)
}

/// The strand variants of valid sequences are nucleotide sequences of covered
/// lengths, one byte per base.
pub proof fn lemma_variants_ok(seqs: Seq<String>)
    requires
        seqs_ok(seqs),
    ensures
        forall|j: int|
            0 <= j < strand_variants(views(seqs)).len() ==> {
                &&& is_dna(#[trigger] strand_variants(views(seqs))[j])
                &&& is_indexed_len(strand_variants(views(seqs))[j].len() as int)
                &&& bytes_of(strand_variants(views(seqs))[j]).len()
                    == strand_variants(views(seqs))[j].len()
            },
{
    let sv = strand_variants(views(seqs));
    let n = seqs.len() as int;
    assert forall|j: int| 0 <= j < sv.len() implies {
        &&& is_dna(#[trigger] sv[j])
        &&& is_indexed_len(sv[j].len() as int)
        &&& bytes_of(sv[j]).len() == sv[j].len()
    } by {
        if j < n {
            assert(sv[j] == seqs[j]@);
            assert(is_dna(seqs[j]@));
            assert(is_indexed_len(seqs[j]@.len() as int));
        } else {
            assert(is_dna(seqs[j - n]@));
            assert(is_indexed_len(seqs[j - n]@.len() as int));
            lemma_revcomp_dna(seqs[j - n]@);
        }
        lemma_dna_bytes(sv[j]);
    }
}

/// Where `index` holds the digests of `refs`, uniqueness read from the index is
/// uniqueness at the reference itself.
pub proof fn lemma_index_agrees(
    seqs: Seq<String>,
    site: Option<(AnchorKind, usize)>,
    index: DigestIndex,
    refs: Seq<Seq<u8>>,
    r: int,
    mismatch: int,
)
    requires
        seqs_ok(seqs),
        index.indexes(refs),
        0 <= r < refs.len(),
    ensures
        unique_in_index(views(seqs), site, index, r, mismatch) == unique_at(
            views(seqs),
            site,
            refs[r],
            mismatch,
        ),
{
    lemma_variants_ok(seqs);
    let sv = strand_variants(views(seqs));
    assert forall|j: int| 0 <= j < sv.len() implies index.entries(
        r,
        bytes_of(#[trigger] sv[j]).len() as int,
    ) == digest_of(refs[r], bytes_of(sv[j]).len() as int) by {
        assert(is_indexed_len(sv[j].len() as int));
    }
}

/// True when no window of `digest` other than the one at `skip` lies within
/// `mismatch` differences of `kmer`.
pub fn digest_unique(kmer: &[u8], digest: &Vec<&[u8]>, mismatch: u32, skip: Option<usize>) -> (r:
    bool)
    requires
        kmer@.len() <= u32::MAX,
        forall|i: int| 0 <= i < digest@.len() ==> (#[trigger] digest@[i])@.len() == kmer@.len(),
    ensures
        r == no_hit(
            kmer@,
            slice_views(digest@),
            mismatch as int,
            match skip {
                Some(s) => Some(s as int),
                None => None,
            },
        ),
{
    let ghost skip_int: Option<int> = match skip {
        Some(s) => Some(s as int),
        None => None,
    };
    let n = digest.len();
    let k = kmer.len();
    let mut i: usize = 0;
    while i < n
        invariant
            n == digest@.len(),
            k == kmer@.len(),
            k <= u32::MAX,
            forall|ii: int| 0 <= ii < n ==> (#[trigger] digest@[ii])@.len() == k,
            skip_int == (match skip {
                Some(s) => Some(s as int),
                None => None,
            }),
            i <= n,
            forall|ii: int|
                0 <= ii < i && skip_int != Some(ii) ==> !is_hit(
                    kmer@,
                    #[trigger] slice_views(digest@)[ii],
                    mismatch as int,
                ),
        decreases n - i,
    {
        let window: &[u8] = digest[i];
        let sim = calc_sim_iter(kmer, window);
        let skipped = match skip {
            Some(s) => s == i,
            None => false,
        };
        if !skipped && sim as u64 + mismatch as u64 >= k as u64 {
            assert(slice_views(digest@)[i as int] == window@);
            return false;
        }
        i = i + 1;
    }
    true
}

/// True when every strand variant of `seqs` has no hit among the windows of
/// reference `ref_index` of its own length, leaving out the site that `site`
/// gives (none when `site` is `None`).
pub fn variants_unique(
    seqs: &Vec<String>,
    site: Option<(AnchorKind, usize)>,
    digest_hashmap: &DigestIndex,
    mismatch: u32,
    ref_index: usize,
) -> (r: bool)
    requires
        seqs_ok(seqs@),
        digest_hashmap.wf(),
        ref_index < digest_hashmap.digests@.len(),
    ensures
        r == unique_in_index(views(seqs@), site, *digest_hashmap, ref_index as int, mismatch as int),
{
    let all_kmer_seqs = generate_all_seqs(seqs);
    proof {
        lemma_variants_ok(seqs@);
    }
    let ghost sv = strand_variants(views(seqs@));
    let ghost lookup = |k: int| digest_hashmap.entries(ref_index as int, k);
    let n = all_kmer_seqs.len();
    let mut j: usize = 0;
    while j < n
        invariant
            n == all_kmer_seqs@.len(),
            views(all_kmer_seqs@) == sv,
            sv == strand_variants(views(seqs@)),
            lookup == (|k: int| digest_hashmap.entries(ref_index as int, k)),
            digest_hashmap.wf(),
            ref_index < digest_hashmap.digests@.len(),
            forall|jj: int|
                0 <= jj < sv.len() ==> {
                    &&& is_dna(#[trigger] sv[jj])
                    &&& is_indexed_len(sv[jj].len() as int)
                    &&& bytes_of(sv[jj]).len() == sv[jj].len()
                },
            j <= n,
            forall|jj: int|
                0 <= jj < j ==> no_hit(
                    bytes_of(#[trigger] sv[jj]),
                    lookup(bytes_of(sv[jj]).len() as int),
                    mismatch as int,
                    skipped_site(site, bytes_of(sv[jj]).len() as int),
                ),
        decreases n - j,
    {
        assert(sv[j as int] == all_kmer_seqs@[j as int]@);
        let kmer_slice = all_kmer_seqs[j].as_str().as_bytes();
        let kmer_len = kmer_slice.len();
        let digested = digest_hashmap.get(ref_index, kmer_len);
        let digested_kmers = match digested {
            Some(d) => d,
            None => {
                assert(false);
                return false;
            },
        };
        let skip: Option<usize> = match site {
            Some((AnchorKind::Start, anchor)) => Some(anchor),
            Some((AnchorKind::End, anchor)) => if anchor >= kmer_len {
                Some(anchor - kmer_len)
            } else {
                None
            },
            None => None,
        };
        proof {
            assert forall|i: int| 0 <= i < digested_kmers@.len() implies (
            #[trigger] digested_kmers@[i])@.len() == kmer_len by {
                assert(slice_views(digested_kmers@)[i] == digested_kmers@[i]@);
            }
        }
        let ok = digest_unique(kmer_slice, digested_kmers, mismatch, skip);
        proof {
            let v = bytes_of(sv[j as int]);
            let d = lookup(v.len() as int);
            assert(d == slice_views(digested_kmers@));
            let skip_int: Option<int> = match skip {
                Some(s) => Some(s as int),
                None => None,
            };
            // A negative expected site leaves nothing out, as no skip does.
            assert(no_hit(v, d, mismatch as int, skip_int) == no_hit(
                v,
                d,
                mismatch as int,
                skipped_site(site, v.len() as int),
            ));
        }
        if !ok {
            return false;
        }
        j = j + 1;
    }
    true
}

} // verus!
