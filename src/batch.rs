//! Evaluating a batch of candidates of one orientation against every reference,
//! in parallel on a pool of worker threads.

use vstd::prelude::*;
use rayon::iter::IndexedParallelIterator;
use rayon::iter::IntoParallelRefIterator;
use rayon::iter::ParallelIterator;
use crate::digest::{DigestIndex, gen_digest_map, is_indexed_len, ref_bytes, MAX_KMER_LEN, MIN_KMER_LEN};
use crate::dna::{all_dna, is_dna, is_dna_str, lemma_dna_bytes, views};
use crate::uniqueness::{
    AnchorKind, lemma_index_agrees, policy_site, seqs_ok, unique_at, unique_everywhere,
    unique_in_index, variants_unique,
};

verus! {

/// Why a batch was refused.
#[derive(Clone, Copy, Debug, PartialEq, Eq, Structural)]
pub enum KmerError {
    /// A candidate sequence is shorter or longer than the index covers.
    UnsupportedLength,
    /// No reference sequence was given.
    EmptyReferenceSet,
    /// A reference or candidate holds a character other than `A`, `C`, `G`, `T`.
    InvalidAlphabet,
}

/// rayon's `ThreadPool`, carried through opaquely: nothing is read from it.
#[verifier::external_type_specification]
#[verifier::external_body]
pub struct ExThreadPool(rayon::ThreadPool);

/// Unique at every reference that `index` holds.
pub open spec fn unique_in_all(
    seqs: Seq<Seq<char>>,
    site: Option<(AnchorKind, usize)>,
    index: DigestIndex,
    mismatch: int,
) -> bool {
    forall|r: int|
        0 <= r < index.digests@.len() ==> #[trigger] unique_in_index(seqs, site, index, r, mismatch)
}

/// Every candidate's sequences are nucleotide sequences.
pub open spec fn candidates_dna(c: Seq<(usize, Vec<String>)>) -> bool {
    forall|i: int| 0 <= i < c.len() ==> all_dna(#[trigger] c[i].1@)
}

/// Every candidate's sequences have a length the index covers.
pub open spec fn candidates_indexed(c: Seq<(usize, Vec<String>)>) -> bool {
    forall|i: int, j: int|
        0 <= i < c.len() && 0 <= j < c[i].1@.len() ==> is_indexed_len(
            #[trigger] c[i].1@[j]@.len() as int,
        )
}

/// The error a batch is refused with, if any: an empty reference list first,
/// then a foreign character, then an uncovered length.
pub open spec fn batch_error(c: Seq<(usize, Vec<String>)>, refs: Seq<String>) -> Option<KmerError> {
    if refs.len() == 0 {
        Some(KmerError::EmptyReferenceSet)
    } else if !all_dna(refs) || !candidates_dna(c) {
        Some(KmerError::InvalidAlphabet)
    } else if !candidates_indexed(c) {
        Some(KmerError::UnsupportedLength)
    } else {
        None
    }
}

/// One answer per candidate, in order: unique at every reference under the policy.
pub open spec fn batch_result(
    c: Seq<(usize, Vec<String>)>,
    kind: AnchorKind,
    refs: Seq<Seq<u8>>,
    mismatch: int,
    detect_expected: bool,
) -> Seq<bool> {
    Seq::new(
        c.len(),
        |i: int| unique_everywhere(views(c[i].1@), policy_site(kind, c[i].0, detect_expected), refs, mismatch),
    )
}

/// The answers for two lists one after the other are the answers for each list,
/// in the same order: each candidate is judged on its own.
pub proof fn lemma_batch_concat(
    c1: Seq<(usize, Vec<String>)>,
    c2: Seq<(usize, Vec<String>)>,
    kind: AnchorKind,
    refs: Seq<Seq<u8>>,
    mismatch: int,
    detect_expected: bool,
)
    ensures
        batch_result(c1 + c2, kind, refs, mismatch, detect_expected) == batch_result(
            c1,
            kind,
            refs,
            mismatch,
            detect_expected,
        ) + batch_result(c2, kind, refs, mismatch, detect_expected),
{
    assert(batch_result(c1 + c2, kind, refs, mismatch, detect_expected) =~= batch_result(
        c1,
        kind,
        refs,
        mismatch,
        detect_expected,
    ) + batch_result(c2, kind, refs, mismatch, detect_expected));
}

/// The sequences of one candidate are unique at every reference of the index
/// under the policy: with `detect_expected` every hit counts, else the hit at the
/// site that `kind` and `anchor` give is left out.
pub fn candidate_is_unique(
    seqs: &Vec<String>,
    kind: AnchorKind,
    anchor: usize,
    detect_expected: bool,
    digest_hashmap: &DigestIndex,
    mismatch: u32,
) -> (r: bool)
    requires
        seqs_ok(seqs@),
        digest_hashmap.wf(),
    ensures
        r == unique_in_all(
            views(seqs@),
            policy_site(kind, anchor, detect_expected),
            *digest_hashmap,
            mismatch as int,
        ),
{
    let site = if detect_expected {
        None
    } else {
        Some((kind, anchor))
    };
    let n = digest_hashmap.digests.len();
    let mut ref_index: usize = 0;
    while ref_index < n
        invariant
            n == digest_hashmap.digests@.len(),
            seqs_ok(seqs@),
            digest_hashmap.wf(),
            site == policy_site(kind, anchor, detect_expected),
            ref_index <= n,
            forall|r: int|
                0 <= r < ref_index ==> #[trigger] unique_in_index(
                    views(seqs@),
                    site,
                    *digest_hashmap,
                    r,
                    mismatch as int,
                ),
        decreases n - ref_index,
    {
        if !variants_unique(seqs, site, digest_hashmap, mismatch, ref_index) {
            return false;
        }
        ref_index = ref_index + 1;
    }
    true
}

/// Relies on rayon's `ThreadPoolBuilder::num_threads` and `build`: a pool of at
/// most `n_cores` threads (rayon picks the number for 0), or `None` where rayon
/// could not make one.
#[verifier::external_body]
fn build_pool(n_cores: usize) -> Option<rayon::ThreadPool> {
    rayon::ThreadPoolBuilder::new().num_threads(n_cores).build().ok()
}

/// Relies on rayon's `ThreadPool::install`, which runs the work on the pool's
/// threads and returns its result, and on `collect_into_vec`, which puts the
/// answer for the i-th candidate at index i. Each answer comes from
/// `candidate_is_unique`.
#[verifier::external_body]
fn par_candidates_unique(
    pool: &rayon::ThreadPool,
    candidates: &Vec<(usize, Vec<String>)>,
    kind: AnchorKind,
    detect_expected: bool,
    digest_hashmap: &DigestIndex,
    mismatch: u32,
) -> (r: Vec<bool>)
    requires
        forall|i: int| 0 <= i < candidates@.len() ==> seqs_ok(#[trigger] candidates@[i].1@),
        digest_hashmap.wf(),
    ensures
        r@.len() == candidates@.len(),
        forall|i: int|
            0 <= i < candidates@.len() ==> r@[i] == unique_in_all(
                views(#[trigger] candidates@[i].1@),
                policy_site(kind, candidates@[i].0, detect_expected),
                *digest_hashmap,
                mismatch as int,
            ),
{
    let mut out: Vec<bool> = Vec::new();
    pool.install(
        || candidates.par_iter().map(
            |c| candidate_is_unique(&c.1, kind, c.0, detect_expected, digest_hashmap, mismatch),
        ).collect_into_vec(&mut out),
    );
    out
}

/// The same answers as `par_candidates_unique`, one candidate after another.
fn seq_candidates_unique(
    candidates: &Vec<(usize, Vec<String>)>,
    kind: AnchorKind,
    detect_expected: bool,
    digest_hashmap: &DigestIndex,
    mismatch: u32,
) -> (r: Vec<bool>)
    requires
        forall|i: int| 0 <= i < candidates@.len() ==> seqs_ok(#[trigger] candidates@[i].1@),
        digest_hashmap.wf(),
    ensures
        r@.len() == candidates@.len(),
        forall|i: int|
            0 <= i < candidates@.len() ==> r@[i] == unique_in_all(
                views(#[trigger] candidates@[i].1@),
                policy_site(kind, candidates@[i].0, detect_expected),
                *digest_hashmap,
                mismatch as int,
            ),
{
    let n = candidates.len();
    let mut out: Vec<bool> = Vec::new();
    let mut i: usize = 0;
    while i < n
        invariant
            n == candidates@.len(),
            forall|ii: int| 0 <= ii < n ==> seqs_ok(#[trigger] candidates@[ii].1@),
            digest_hashmap.wf(),
            i <= n,
            out@.len() == i,
            forall|ii: int|
                0 <= ii < i ==> out@[ii] == unique_in_all(
                    views(#[trigger] candidates@[ii].1@),
                    policy_site(kind, candidates@[ii].0, detect_expected),
                    *digest_hashmap,
                    mismatch as int,
                ),
        decreases n - i,
    {
        let c = &candidates[i];
        let b = candidate_is_unique(&c.1, kind, c.0, detect_expected, digest_hashmap, mismatch);
        out.push(b);
        i = i + 1;
    }
    out
}

/// True when every string of the list is a nucleotide sequence.
fn all_dna_strings(seqs: &Vec<String>) -> (r: bool)
    ensures
        r == all_dna(seqs@),
{
    let n = seqs.len();
    let mut i: usize = 0;
    while i < n
        invariant
            n == seqs@.len(),
            i <= n,
            forall|k: int| 0 <= k < i ==> #[trigger] is_dna(seqs@[k]@),
        decreases n - i,
    {
        if !is_dna_str(seqs[i].as_str()) {
            return false;
        }
        i = i + 1;
    }
    true
}

/// The error a batch is refused with, if any.
fn batch_check(candidates: &Vec<(usize, Vec<String>)>, referance_seqs: &Vec<String>) -> (r: Option<
    KmerError,
>)
    ensures
        r == batch_error(candidates@, referance_seqs@),
{
    if referance_seqs.len() == 0 {
        return Some(KmerError::EmptyReferenceSet);
    }
    if !all_dna_strings(referance_seqs) {
        return Some(KmerError::InvalidAlphabet);
    }
    let n = candidates.len();
    let mut i: usize = 0;
    while i < n
        invariant
            n == candidates@.len(),
            referance_seqs@.len() > 0,
            all_dna(referance_seqs@),
            i <= n,
            forall|k: int| 0 <= k < i ==> all_dna(#[trigger] candidates@[k].1@),
        decreases n - i,
    {
        if !all_dna_strings(&candidates[i].1) {
            assert(!all_dna(candidates@[i as int].1@));
            return Some(KmerError::InvalidAlphabet);
        }
        i = i + 1;
    }
    let mut i: usize = 0;
    while i < n
        invariant
            n == candidates@.len(),
            candidates_dna(candidates@),
            referance_seqs@.len() > 0,
            all_dna(referance_seqs@),
            i <= n,
            forall|k: int, j: int|
                0 <= k < i && 0 <= j < candidates@[k].1@.len() ==> is_indexed_len(
                    #[trigger] candidates@[k].1@[j]@.len() as int,
                ),
        decreases n - i,
    {
        let seqs = &candidates[i].1;
        let m = seqs.len();
        let mut j: usize = 0;
        while j < m
            invariant
                n == candidates@.len(),
                candidates_dna(candidates@),
                referance_seqs@.len() > 0,
                all_dna(referance_seqs@),
                i < n,
                seqs == candidates@[i as int].1,
                m == seqs@.len(),
                all_dna(seqs@),
                j <= m,
                forall|jj: int| 0 <= jj < j ==> is_indexed_len(#[trigger] seqs@[jj]@.len() as int),
            decreases m - j,
        {
            assert(is_dna(seqs@[j as int]@));
            proof {
                lemma_dna_bytes(seqs@[j as int]@);
            }
            let len = seqs[j].as_str().as_bytes().len();
            if len < MIN_KMER_LEN || len >= MAX_KMER_LEN {
                assert(!is_indexed_len(candidates@[i as int].1@[j as int]@.len() as int));
                return Some(KmerError::UnsupportedLength);
            }
            j = j + 1;
        }
        i = i + 1;
    }
    None
}

/// Judges every candidate of one orientation against every reference: the i-th
/// answer is true when candidate i is unique at every reference under the policy.
/// The digest index is built once and shared read-only by up to `n_cores` worker
/// threads; the answers do not depend on `n_cores`. A refused batch gives its
/// error and no answers.
pub fn evaluate_batch(
    candidates: &Vec<(usize, Vec<String>)>,
    kind: AnchorKind,
    referance_seqs: &Vec<String>,
    n_cores: usize,
    mismatches: u32,
    detect_expected: bool,
) -> (r: Result<Vec<bool>, KmerError>)
    ensures
        match batch_error(candidates@, referance_seqs@) {
            Some(e) => r == Err::<Vec<bool>, KmerError>(e),
            None => r is Ok && r->Ok_0@ == batch_result(
                candidates@,
                kind,
                ref_bytes(referance_seqs@),
                mismatches as int,
                detect_expected,
            ),
        },
{
    match batch_check(candidates, referance_seqs) {
        Some(e) => {
            return Err(e);
        },
        None => {},
    }
    assert forall|i: int| 0 <= i < candidates@.len() implies seqs_ok(#[trigger] candidates@[i].1@) by {
        assert(all_dna(candidates@[i].1@));
        assert forall|j: int| 0 <= j < candidates@[i].1@.len() implies is_indexed_len(
            #[trigger] candidates@[i].1@[j]@.len() as int,
        ) by {
            assert(is_indexed_len(candidates@[i].1@[j]@.len() as int));
        }
    }
    let digest_hashmap = gen_digest_map(referance_seqs);
    let answers = match build_pool(n_cores) {
        Some(pool) => par_candidates_unique(
            &pool,
            candidates,
            kind,
            detect_expected,
            &digest_hashmap,
            mismatches,
        ),
        None => seq_candidates_unique(candidates, kind, detect_expected, &digest_hashmap, mismatches),
    };
    proof {
        let refs = ref_bytes(referance_seqs@);
        assert forall|i: int| 0 <= i < candidates@.len() implies answers@[i] == batch_result(
            candidates@,
            kind,
            refs,
            mismatches as int,
            detect_expected,
        )[i] by {
            let seqs = candidates@[i].1@;
            let site = policy_site(kind, candidates@[i].0, detect_expected);
            assert(seqs_ok(seqs));
            let m = mismatches as int;
            assert(unique_in_all(views(seqs), site, digest_hashmap, m) ==> unique_everywhere(
                views(seqs),
                site,
                refs,
                m,
            )) by {
                if unique_in_all(views(seqs), site, digest_hashmap, m) {
                    assert forall|r: int| 0 <= r < refs.len() implies #[trigger] unique_at(
                        views(seqs),
                        site,
                        refs[r],
                        m,
                    ) by {
                        lemma_index_agrees(seqs, site, digest_hashmap, refs, r, m);
                        assert(unique_in_index(views(seqs), site, digest_hashmap, r, m));
                    }
                }
            }
            assert(unique_everywhere(views(seqs), site, refs, m) ==> unique_in_all(
                views(seqs),
                site,
                digest_hashmap,
                m,
            )) by {
                if unique_everywhere(views(seqs), site, refs, m) {
                    assert forall|r: int| 0 <= r < digest_hashmap.digests@.len() implies #[trigger] unique_in_index(
                        views(seqs),
                        site,
                        digest_hashmap,
                        r,
                        m,
                    ) by {
                        lemma_index_agrees(seqs, site, digest_hashmap, refs, r, m);
                        assert(unique_at(views(seqs), site, refs[r], m));
                    }
                }
            }
        }
        assert(answers@ =~= batch_result(candidates@, kind, refs, mismatches as int, detect_expected));
    }
    Ok(answers)
}

/// Start-anchored candidates as `(start, sequences)` pairs.
pub fn kmer_is_unique(
    kmers: Vec<(usize, Vec<String>)>,
    referance_seqs: Vec<String>,
    n_cores: usize,
    mismatches: u32,
    detect_expected: bool,
) -> (r: Result<Vec<bool>, KmerError>)
    ensures
        match batch_error(kmers@, referance_seqs@) {
            Some(e) => r == Err::<Vec<bool>, KmerError>(e),
            None => r is Ok && r->Ok_0@ == batch_result(
                kmers@,
                AnchorKind::Start,
                ref_bytes(referance_seqs@),
                mismatches as int,
                detect_expected,
            ),
        },
{
    evaluate_batch(&kmers, AnchorKind::Start, &referance_seqs, n_cores, mismatches, detect_expected)
}

/// End-anchored candidates as `(end, sequences)` pairs.
pub fn fkmer_is_unique(
    fkmers: Vec<(usize, Vec<String>)>,
    referance_seqs: Vec<String>,
    n_cores: usize,
    mismatches: u32,
    detect_expected: bool,
) -> (r: Result<Vec<bool>, KmerError>)
    ensures
        match batch_error(fkmers@, referance_seqs@) {
            Some(e) => r == Err::<Vec<bool>, KmerError>(e),
            None => r is Ok && r->Ok_0@ == batch_result(
                fkmers@,
                AnchorKind::End,
                ref_bytes(referance_seqs@),
                mismatches as int,
                detect_expected,
            ),
        },
{
    evaluate_batch(&fkmers, AnchorKind::End, &referance_seqs, n_cores, mismatches, detect_expected)
}

/// Reverse-strand candidates as `(start, sequences)` pairs.
pub fn rkmer_is_unique(
    rkmers: Vec<(usize, Vec<String>)>,
    referance_seqs: Vec<String>,
    n_cores: usize,
    mismatches: u32,
    detect_expected: bool,
) -> (r: Result<Vec<bool>, KmerError>)
    ensures
        match batch_error(rkmers@, referance_seqs@) {
            Some(e) => r == Err::<Vec<bool>, KmerError>(e),
            None => r is Ok && r->Ok_0@ == batch_result(
                rkmers@,
                AnchorKind::Start,
                ref_bytes(referance_seqs@),
                mismatches as int,
                detect_expected,
            ),
        },
{
    evaluate_batch(&rkmers, AnchorKind::Start, &referance_seqs, n_cores, mismatches, detect_expected)
}

} // verus!
