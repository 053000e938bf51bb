//! Positional (Hamming-style) similarity of two equal-length sequences.

use vstd::prelude::*;

verus! {

/// The number of positions below `n` at which `a` and `b` hold the same byte.
pub open spec fn matches_upto(a: Seq<u8>, b: Seq<u8>, n: int) -> int
    decreases n,
{
    if n <= 0 {
        0
    } else {
        matches_upto(a, b, n - 1) + if a[n - 1] == b[n - 1] {
            1int
        } else {
            0int
        }
    }
}

/// The number of positions at which two equal-length sequences agree.
pub open spec fn similarity(a: Seq<u8>, b: Seq<u8>) -> int {
    matches_upto(a, b, a.len() as int)
}

/// The count of agreeing positions lies between zero and the number of positions.
pub proof fn lemma_matches_upto_bounds(a: Seq<u8>, b: Seq<u8>, n: int)
    ensures
        n >= 0 ==> 0 <= matches_upto(a, b, n) <= n,
    decreases n,
{
    if n > 0 {
        lemma_matches_upto_bounds(a, b, n - 1);
    }
}

/// A sequence agrees with itself at every position.
pub proof fn lemma_similarity_self(s: Seq<u8>)
    ensures
        similarity(s, s) == s.len(),
{
    lemma_matches_self(s, s.len() as int);
}

proof fn lemma_matches_self(s: Seq<u8>, n: int)
    requires
        0 <= n <= s.len(),
    ensures
        matches_upto(s, s, n) == n,
    decreases n,
{
    if n > 0 {
        lemma_matches_self(s, n - 1);
    }
}

/// Similarity does not depend on the order of its two arguments.
pub proof fn lemma_similarity_symmetric(a: Seq<u8>, b: Seq<u8>)
    requires
        a.len() == b.len(),
    ensures
        similarity(a, b) == similarity(b, a),
{
    lemma_matches_symmetric(a, b, a.len() as int);
}

proof fn lemma_matches_symmetric(a: Seq<u8>, b: Seq<u8>, n: int)
    ensures
        matches_upto(a, b, n) == matches_upto(b, a, n),
    decreases n,
{
    if n > 0 {
        lemma_matches_symmetric(a, b, n - 1);
    }
}

/// The number of positions at which two equal-length sequences agree (no gaps).
pub fn calc_sim_iter(seq1: &[u8], seq2: &[u8]) -> (r: u32)
    requires
        seq1@.len() == seq2@.len(),
        seq1@.len() <= u32::MAX,
    ensures
        r == similarity(seq1@, seq2@),
{
    let n = seq1.len();
    let mut count: u32 = 0;
    let mut i: usize = 0;
    while i < n
        invariant
            n == seq1@.len(),
            n == seq2@.len(),
            n <= u32::MAX,
            i <= n,
            count == matches_upto(seq1@, seq2@, i as int),
        decreases n - i,
    {
        proof {
            lemma_matches_upto_bounds(seq1@, seq2@, i as int);
        }
        if seq1[i] == seq2[i] {
            count = count + 1;
        }
        i = i + 1;
    }
    count
}

} // verus!
