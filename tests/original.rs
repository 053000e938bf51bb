use kmertools::digest::{gen_digest_map, kmer_digest};
use kmertools::dna::{generate_all_seqs, reverse_complement};
use kmertools::kmer::{unique_kmer, unique_kmer_start, unique_rkmer, unique_rkmer_start, Kmer, RKmer};
use kmertools::similarity::calc_sim_iter;

#[test]
fn test_identical_calc_sim_iter() {
    let seq1 = "ATACGTAGCTGTAGCTG".as_bytes();
    assert_eq!(calc_sim_iter(seq1, seq1), seq1.len() as u32);
}

#[test]
fn test_1dif_calc_sim_iter() {
    let seq1 = "ATACGTAGCTGTAGCTG".as_bytes();
    let seq2 = "ATACGTAGCTGAAGCTG".as_bytes();
    assert_eq!(calc_sim_iter(seq1, seq2), seq1.len() as u32 - 1);
}

#[test]
fn test_digest_kmer_number() {
    let ref_seq = "ATACGTAGCTGTAGCTGACTGATCGATCGTAGCTAGCTACGTCGATGCGTAGTCAGT".as_bytes();
    let k = 3;

    let kmers = kmer_digest(ref_seq, k);

    assert_eq!(kmers.len(), ref_seq.len() - k + 1);
}

#[test]
fn test_digest_kmer_order() {
    let ref_seq = "ATACGTAGCTGTAGCTGACTGATCGATCGTAGCTAGCTACGTCGATGCGTAGTCAGT".as_bytes();
    let k = 3;

    let kmers = kmer_digest(ref_seq, k);

    let kmer_first_letter: Vec<u8> = kmers.iter().map(|kmer| kmer[0]).collect();

    assert_eq!(
        *kmer_first_letter.as_slice(),
        ref_seq[..ref_seq.len() - k + 1]
    );
}

#[test]
fn test_detect_repeat() {
    let ref_seqs = vec![
        "ATACGTAGCTGTAGCTGACTGATCGATCGTAGCTAGCTACGTCGATGCGTAGTCAGATCGATCGATGCTATGCT"
            .to_string(),
    ];
    let kmer = Kmer::new(0, vec!["ATACGTAGCTGTAGCTGACTG".to_string()]);
    let digest_hashmap = gen_digest_map(&ref_seqs);

    let data = unique_kmer(&kmer, &digest_hashmap, 0, 0);
    println!("Is Kmer Unique: {}", data);
    assert_eq!(data, false);
}

#[test]
fn test_detect_repeat_ignore_start() {
    let ref_seqs = vec![
        "ATACGTAGCTGTAGCTGACTGATCGATCGTAGCTAGCTACGTCGATGCGTAGTCAGATCGATCGATGCTATGCT"
            .to_string(),
    ];
    let kmer = Kmer::new(0, vec!["ATACGTAGCTGTAGCTGACTG".to_string()]);
    let digest_hashmap = gen_digest_map(&ref_seqs);

    let data = unique_kmer_start(&kmer, &digest_hashmap, 0, 0);
    println!("Is Kmer Unique: {}", data);
    assert_eq!(data, true);
}

#[test]
fn test_detect_ignore_start() {
    let ref_seqs = vec![
        "ATACGTAGCTGTAGCTGACTGATCGATCGTAGCTAGCTACGTCGATGCGTAGTCAGATCGATCGATGCTATGCT"
            .to_string(),
    ];
    let kmer = Kmer::new(1, vec!["ATACGTAGCTGTAGCTGACTG".to_string()]);
    let digest_hashmap = gen_digest_map(&ref_seqs);

    let data = unique_kmer_start(&kmer, &digest_hashmap, 0, 0);
    println!("Is Kmer Unique: {}", data);
    assert_eq!(data, false);
}

#[test]
fn test_unique_rkmer_start() {
    let ref_seqs = vec![
        "ATACGTAGCTGTAGCTGACTGATCGATCGTAGCTAGCTACGTCGATGCGTAGTCAGATCGATCGATGCTATGCT"
            .to_string(),
    ];
    let kmer = RKmer::new(0, vec!["ATACGTAGCTGTAGCTGACTG".to_string()]);
    let digest_hashmap = gen_digest_map(&ref_seqs);

    let data = unique_rkmer_start(&kmer, &digest_hashmap, 0, 0);

    assert_eq!(data, true);
}

#[test]
fn test_rc() {
    let seq1 = "ATCG";
    let seq1_rc = "CGAT";

    assert_eq!(seq1_rc.to_string(), reverse_complement(seq1));
}

#[test]
fn test_generate_all_seqs() {
    let seqs = vec!["ATCGTACT".to_string(), "TTCGTACT".to_string()];
    let all_seqs = generate_all_seqs(&seqs);

    println!("{:?}", all_seqs);

    assert_eq!(
        all_seqs,
        vec![
            "ATCGTACT".to_string(),
            "TTCGTACT".to_string(),
            "AGTACGAT".to_string(),
            "AGTACGAA".to_string()
        ]
    );
}

#[test]
fn test_rkmer_detect() {
    let rkmer = RKmer::new(5, vec!["ATCGATCTGACTACGCATCGACGTA".to_string()]);

    let ref_seqs = vec![
        "ATACGTAGCTGTAGCTGACTGATCGATCGTAGCTAGCTACGTCGATGCGTAGTCAGATCGATCGATGCTATGCT"
            .to_string(),
    ];

    let digest_hashmap = gen_digest_map(&ref_seqs);
    let all_seqs = generate_all_seqs(&rkmer.seq);
    println!("{:?}", all_seqs);

    let result = unique_rkmer(&rkmer, &digest_hashmap, 0, 0);

    println!("{}", result);
}
