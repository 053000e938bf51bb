//! The three candidate orientations and their per-reference uniqueness checks.

use vstd::prelude::*;
use crate::digest::DigestIndex;
use crate::dna::{is_dna, lemma_dna_bytes, views};
use crate::uniqueness::{AnchorKind, seqs_ok, unique_in_index, variants_unique};

verus! {

/// A start-anchored candidate: `start` is the 0-based position of its first base.
pub struct Kmer {
    pub start: usize,
    pub seq: Vec<String>,
}

impl Kmer {
    pub fn new(start: usize, seq: Vec<String>) -> (r: Self)
        ensures
            r.start == start,
            r.seq == seq,
    {
        Kmer { start, seq }
    }

    /// The length of the candidate, read from its first sequence.
    pub fn len(&self) -> (r: usize)
        requires
            self.seq@.len() > 0,
            is_dna(self.seq@[0]@),
        ensures
            r == self.seq@[0]@.len(),
    {
        proof {
            lemma_dna_bytes(self.seq@[0]@);
        }
        self.seq[0].as_str().as_bytes().len()
    }
}

/// An end-anchored candidate: `end` is the position just past its last base.
pub struct FKmer {
    pub end: usize,
    pub seq: Vec<String>,
}

impl FKmer {
    pub fn new(end: usize, seq: Vec<String>) -> (r: Self)
        ensures
            r.end == end,
            r.seq == seq,
    {
        FKmer { end, seq }
    }
}

/// A reverse-strand candidate: `start` is its first base's position on the
/// reverse strand's frame.
pub struct RKmer {
    pub start: usize,
    pub seq: Vec<String>,
}

impl RKmer {
    pub fn new(start: usize, seq: Vec<String>) -> (r: Self)
        ensures
            r.start == start,
            r.seq == seq,
    {
        RKmer { start, seq }
    }
}

/// Unique at reference `ref_index`, every hit counted (the expected site included).
pub fn unique_kmer(kmer: &Kmer, digest_hashmap: &DigestIndex, mismatch: u32, ref_index: usize) -> (r:
    bool)
    requires
        seqs_ok(kmer.seq@),
        digest_hashmap.wf(),
        ref_index < digest_hashmap.digests@.len(),
    ensures
        r == unique_in_index(views(kmer.seq@), None, *digest_hashmap, ref_index as int, mismatch as int),
{
    variants_unique(&kmer.seq, None, digest_hashmap, mismatch, ref_index)
}

/// Unique at reference `ref_index`, leaving out the hit at the candidate's start.
pub fn unique_kmer_start(
    kmer: &Kmer,
    digest_hashmap: &DigestIndex,
    mismatch: u32,
    ref_index: usize,
) -> (r: bool)
    requires
        seqs_ok(kmer.seq@),
        digest_hashmap.wf(),
        ref_index < digest_hashmap.digests@.len(),
    ensures
        r == unique_in_index(
            views(kmer.seq@),
            Some((AnchorKind::Start, kmer.start)),
            *digest_hashmap,
            ref_index as int,
            mismatch as int,
        ),
{
    variants_unique(&kmer.seq, Some((AnchorKind::Start, kmer.start)), digest_hashmap, mismatch, ref_index)
}

/// Unique at reference `ref_index`, every hit counted (the expected site included).
pub fn unique_fkmer(fkmer: &FKmer, digest_hashmap: &DigestIndex, mismatch: u32, ref_index: usize) -> (r:
    bool)
    requires
        seqs_ok(fkmer.seq@),
        digest_hashmap.wf(),
        ref_index < digest_hashmap.digests@.len(),
    ensures
        r == unique_in_index(views(fkmer.seq@), None, *digest_hashmap, ref_index as int, mismatch as int),
{
    variants_unique(&fkmer.seq, None, digest_hashmap, mismatch, ref_index)
}

/// Unique at reference `ref_index`, leaving out the hit that ends at the
/// candidate's end.
pub fn unique_fkmer_start(
    fkmer: &FKmer,
    digest_hashmap: &DigestIndex,
    mismatch: u32,
    ref_index: usize,
) -> (r: bool)
    requires
        seqs_ok(fkmer.seq@),
        digest_hashmap.wf(),
        ref_index < digest_hashmap.digests@.len(),
    ensures
        r == unique_in_index(
            views(fkmer.seq@),
            Some((AnchorKind::End, fkmer.end)),
            *digest_hashmap,
            ref_index as int,
            mismatch as int,
        ),
{
    variants_unique(&fkmer.seq, Some((AnchorKind::End, fkmer.end)), digest_hashmap, mismatch, ref_index)
}

/// Unique at reference `ref_index`, every hit counted (the expected site included).
pub fn unique_rkmer(rkmer: &RKmer, digest_hashmap: &DigestIndex, mismatch: u32, ref_index: usize) -> (r:
    bool)
    requires
        seqs_ok(rkmer.seq@),
        digest_hashmap.wf(),
        ref_index < digest_hashmap.digests@.len(),
    ensures
        r == unique_in_index(views(rkmer.seq@), None, *digest_hashmap, ref_index as int, mismatch as int),
{
    variants_unique(&rkmer.seq, None, digest_hashmap, mismatch, ref_index)
}

/// Unique at reference `ref_index`, leaving out the hit at the candidate's start.
pub fn unique_rkmer_start(
    rkmer: &RKmer,
    digest_hashmap: &DigestIndex,
    mismatch: u32,
    ref_index: usize,
) -> (r: bool)
    requires
        seqs_ok(rkmer.seq@),
        digest_hashmap.wf(),
        ref_index < digest_hashmap.digests@.len(),
    ensures
        r == unique_in_index(
            views(rkmer.seq@),
            Some((AnchorKind::Start, rkmer.start)),
            *digest_hashmap,
            ref_index as int,
            mismatch as int,
        ),
{
    variants_unique(&rkmer.seq, Some((AnchorKind::Start, rkmer.start)), digest_hashmap, mismatch, ref_index)
}

} // verus!
