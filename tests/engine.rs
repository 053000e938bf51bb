use kmertools::batch::{evaluate_batch, fkmer_is_unique, kmer_is_unique, rkmer_is_unique, KmerError};
use kmertools::digest::{gen_digest_map, kmer_digest, MAX_KMER_LEN, MIN_KMER_LEN};
use kmertools::dna::{is_dna_str, reverse_complement};
use kmertools::kmer::{unique_fkmer, unique_fkmer_start, FKmer, Kmer};
use kmertools::similarity::calc_sim_iter;
use kmertools::uniqueness::{digest_unique, AnchorKind};

const REFERENCE: &str =
    "ATACGTAGCTGTAGCTGACTGATCGATCGTAGCTAGCTACGTCGATGCGTAGTCAGATCGATCGATGCTATGCT";
const CANDIDATE: &str = "ATACGTAGCTGTAGCTGACTG";

fn refs() -> Vec<String> {
    vec![REFERENCE.to_string()]
}

fn one(anchor: usize, seq: &str) -> Vec<(usize, Vec<String>)> {
    vec![(anchor, vec![seq.to_string()])]
}

#[test]
fn expected_site_counts_when_detecting() {
    let r = kmer_is_unique(one(0, CANDIDATE), refs(), 2, 0, true);
    assert_eq!(r, Ok(vec![false]));
}

#[test]
fn expected_site_left_out_gives_unique() {
    let r = kmer_is_unique(one(0, CANDIDATE), refs(), 2, 0, false);
    assert_eq!(r, Ok(vec![true]));
}

#[test]
fn wrong_anchor_keeps_true_match() {
    let r = kmer_is_unique(one(1, CANDIDATE), refs(), 2, 0, false);
    assert_eq!(r, Ok(vec![false]));
}

#[test]
fn end_anchor_excludes_window_ending_there() {
    let len = CANDIDATE.len();
    assert_eq!(fkmer_is_unique(one(len, CANDIDATE), refs(), 1, 0, false), Ok(vec![true]));
    assert_eq!(fkmer_is_unique(one(len + 1, CANDIDATE), refs(), 1, 0, false), Ok(vec![false]));
    assert_eq!(fkmer_is_unique(one(len, CANDIDATE), refs(), 1, 0, true), Ok(vec![false]));
    // an end before the candidate's length leaves nothing out
    assert_eq!(fkmer_is_unique(one(3, CANDIDATE), refs(), 1, 0, false), Ok(vec![false]));
}

#[test]
fn fkmer_per_reference_checks() {
    let ref_seqs = refs();
    let index = gen_digest_map(&ref_seqs);
    let f = FKmer::new(21, vec![CANDIDATE.to_string()]);
    assert_eq!(unique_fkmer(&f, &index, 0, 0), false);
    assert_eq!(unique_fkmer_start(&f, &index, 0, 0), true);
}

#[test]
fn reverse_strand_match_is_found() {
    // the reverse complement of a window binds the forward digest
    let rc = reverse_complement(&REFERENCE[30..50]);
    assert_eq!(rkmer_is_unique(one(0, &rc), refs(), 1, 0, true), Ok(vec![false]));
    assert_eq!(rkmer_is_unique(one(30, &rc), refs(), 1, 0, false), Ok(vec![true]));
}

#[test]
fn mismatch_tolerance_widens_hits() {
    // one base changed at position 5: no exact hit, a hit with one mismatch
    let cand = "ATACGAAGCTGTAGCTGACTG";
    assert_eq!(kmer_is_unique(one(0, cand), refs(), 1, 0, true), Ok(vec![true]));
    assert_eq!(kmer_is_unique(one(0, cand), refs(), 1, 1, true), Ok(vec![false]));
    assert_eq!(kmer_is_unique(one(0, cand), refs(), 1, 1, false), Ok(vec![true]));
}

#[test]
fn batch_keeps_order_and_count() {
    let cands = vec![
        (0, vec![CANDIDATE.to_string()]),
        (1, vec![CANDIDATE.to_string()]),
        (0, vec![CANDIDATE.to_string()]),
        (7, vec!["GGGGGGGGGGGGGGGG".to_string()]),
    ];
    let r = evaluate_batch(&cands, AnchorKind::Start, &refs(), 3, 0, false).unwrap();
    assert_eq!(r, vec![true, false, true, true]);
    let again = evaluate_batch(&cands, AnchorKind::Start, &refs(), 1, 0, false).unwrap();
    assert_eq!(r, again);
    let default_pool = evaluate_batch(&cands, AnchorKind::Start, &refs(), 0, 0, false).unwrap();
    assert_eq!(r, default_pool);
}

#[test]
fn empty_batch_gives_no_answers() {
    assert_eq!(kmer_is_unique(vec![], refs(), 1, 0, true), Ok(vec![]));
}

#[test]
fn all_references_must_agree() {
    let two = vec![REFERENCE.to_string(), "CCCCCCCCCCCCCCCCCCCCCCCCCCCCCC".to_string()];
    assert_eq!(kmer_is_unique(one(0, CANDIDATE), two.clone(), 1, 0, false), Ok(vec![true]));
    let other = vec!["CCCCCCCCCCCCCCCCCCCCCCCCCCCCCC".to_string(), REFERENCE.to_string()];
    // at reference 0 nothing binds; at reference 1 the site is left out
    assert_eq!(kmer_is_unique(one(0, CANDIDATE), other, 1, 0, false), Ok(vec![true]));
    let dup = vec![REFERENCE.to_string(), REFERENCE[1..].to_string()];
    // in the second reference the match sits at 0 while the anchor says 0 too
    assert_eq!(kmer_is_unique(one(1, &REFERENCE[1..22]), dup, 1, 0, false), Ok(vec![false]));
}

#[test]
fn every_equivalent_sequence_must_be_unique() {
    let cands = vec![(0, vec!["GGGGGGGGGGGGGGGGGGGGG".to_string(), CANDIDATE.to_string()])];
    assert_eq!(kmer_is_unique(cands, refs(), 1, 0, true), Ok(vec![false]));
}

#[test]
fn empty_reference_set_is_refused() {
    assert_eq!(kmer_is_unique(one(0, CANDIDATE), vec![], 1, 0, true), Err(KmerError::EmptyReferenceSet));
}

#[test]
fn foreign_characters_are_refused() {
    let bad_ref = vec!["ATACGTAGCTGNAGCTGACTG".to_string()];
    assert_eq!(kmer_is_unique(one(0, CANDIDATE), bad_ref, 1, 0, true), Err(KmerError::InvalidAlphabet));
    assert_eq!(
        kmer_is_unique(one(0, "ATACGTAGCTGTAGCTGACTa"), refs(), 1, 0, true),
        Err(KmerError::InvalidAlphabet)
    );
    assert_eq!(
        kmer_is_unique(one(0, "ATACGTAGCTGTAGCTGACTé"), refs(), 1, 0, true),
        Err(KmerError::InvalidAlphabet)
    );
}

#[test]
fn uncovered_lengths_are_refused() {
    assert_eq!(
        kmer_is_unique(one(0, &CANDIDATE[..11]), refs(), 1, 0, true),
        Err(KmerError::UnsupportedLength)
    );
    assert_eq!(kmer_is_unique(one(0, &CANDIDATE[..12]), refs(), 1, 0, true), Ok(vec![false]));
    let long = &REFERENCE[..40];
    assert_eq!(kmer_is_unique(one(0, long), refs(), 1, 0, true), Err(KmerError::UnsupportedLength));
    assert_eq!(kmer_is_unique(one(0, &REFERENCE[..39]), refs(), 1, 0, true), Ok(vec![false]));
}

#[test]
fn empty_reference_is_refused_before_alphabet() {
    assert_eq!(kmer_is_unique(one(0, "xx"), vec![], 1, 0, true), Err(KmerError::EmptyReferenceSet));
    assert_eq!(
        kmer_is_unique(one(0, "xx"), vec!["N".to_string()], 1, 0, true),
        Err(KmerError::InvalidAlphabet)
    );
}

#[test]
fn short_reference_has_no_windows() {
    let short = vec!["ACGTACGTAC".to_string()];
    let index = gen_digest_map(&short);
    assert_eq!(index.get(0, 12).unwrap().len(), 0);
    assert_eq!(kmer_is_unique(one(0, "ACGTACGTACGT"), short, 1, 0, true), Ok(vec![true]));
}

#[test]
fn digest_index_windows() {
    let ref_seqs = refs();
    let index = gen_digest_map(&ref_seqs);
    let bytes = REFERENCE.as_bytes();
    for k in MIN_KMER_LEN..MAX_KMER_LEN {
        let d = index.get(0, k).unwrap();
        assert_eq!(d.len(), bytes.len() - k + 1);
        for (i, w) in d.iter().enumerate() {
            assert_eq!(w[0], bytes[i]);
            assert_eq!(*w, &bytes[i..i + k]);
        }
    }
    assert!(index.get(0, MIN_KMER_LEN - 1).is_none());
    assert!(index.get(0, MAX_KMER_LEN).is_none());
    assert!(index.get(1, MIN_KMER_LEN).is_none());
}

#[test]
fn digest_edge_lengths() {
    let q = "ACGT".as_bytes();
    assert_eq!(kmer_digest(q, 4).len(), 1);
    assert_eq!(kmer_digest(q, 5).len(), 0);
    assert_eq!(kmer_digest(q, 9).len(), 0);
    assert_eq!(kmer_digest(q, 0).len(), 5);
}

#[test]
fn reverse_complement_twice_is_identity() {
    let s = "ATTGCCGATAC";
    let once = reverse_complement(s);
    assert_eq!(once, "GTATCGGCAAT");
    assert_eq!(reverse_complement(&once), s);
    assert_eq!(reverse_complement(""), "");
}

#[test]
fn similarity_self_and_symmetry() {
    let a = "ACGTTGCA".as_bytes();
    let b = "ACCTTGAA".as_bytes();
    assert_eq!(calc_sim_iter(a, a), 8);
    assert_eq!(calc_sim_iter(a, b), 6);
    assert_eq!(calc_sim_iter(b, a), 6);
    assert_eq!(calc_sim_iter(&[], &[]), 0);
}

#[test]
fn digest_unique_skips_one_position() {
    let q = "ACGACG".as_bytes();
    let d = kmer_digest(q, 3);
    let k = "ACG".as_bytes();
    assert!(!digest_unique(k, &d, 0, None));
    assert!(!digest_unique(k, &d, 0, Some(0)));
    assert!(digest_unique("TTT".as_bytes(), &d, 0, None));
    assert!(!digest_unique("TTT".as_bytes(), &d, 3, Some(9)));
}

#[test]
fn dna_check() {
    assert!(is_dna_str("ACGT"));
    assert!(is_dna_str(""));
    assert!(!is_dna_str("ACGU"));
    assert!(!is_dna_str("acgt"));
}

#[test]
fn kmer_length() {
    let k = Kmer::new(3, vec!["ACGTA".to_string(), "ACGTT".to_string()]);
    assert_eq!(k.len(), 5);
    assert_eq!(k.start, 3);
}
