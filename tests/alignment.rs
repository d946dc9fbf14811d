use seqaligner::global::align;
use seqaligner::kmer::{worth_aligning, KmerFraction};
use seqaligner::pipeline::{evaluate_pair, pair_indices, AlignmentResult, SequenceSet};
use seqaligner::scoring::Matcher;

fn set_of(entries: &[(&str, &str)]) -> SequenceSet {
    let ids: Vec<String> = entries.iter().map(|(k, _)| k.to_string()).collect();
    let seqs: Vec<String> = entries.iter().map(|(_, v)| v.to_string()).collect();
    SequenceSet::new(ids, seqs).unwrap()
}

fn run_all(set: &SequenceSet, m: &Matcher, fraction: &Option<KmerFraction>, min_matches: usize) -> Vec<AlignmentResult> {
    let mut out = Vec::new();
    for (i, j) in pair_indices(set.len()) {
        if let Some(r) = evaluate_pair(set, i, j, m, fraction, min_matches) {
            out.push(r);
        }
    }
    out
}

#[test]
fn self_alignment_scores_length() {
    assert_eq!(align("ACGTACGT", "ACGTACGT", &Matcher::Identity), 8);
    assert_eq!(align("M", "M", &Matcher::Identity), 1);
}

#[test]
fn empty_against_sequence_is_one_gap_run() {
    assert_eq!(align("", "ACGT", &Matcher::Identity), -13);
    assert_eq!(align("", "A", &Matcher::Identity), -10);
    assert_eq!(align("ACGTA", "", &Matcher::Identity), -14);
    assert_eq!(align("", "", &Matcher::Identity), 0);
}

#[test]
fn identity_mismatches_and_gaps() {
    assert_eq!(align("AAAA", "TTTT", &Matcher::Identity), -4);
    // one gap of length 1 beats no alignment of the extra symbol
    assert_eq!(align("ACGT", "ACT", &Matcher::Identity), -7);
}

#[test]
fn blosum62_scores_come_from_the_table() {
    assert_eq!(Matcher::Blosum62.score(b'H', b'A'), -2);
    assert_eq!(Matcher::Blosum62.score(b'W', b'W'), 11);
    assert_eq!(align("HW", "HW", &Matcher::Blosum62), 8 + 11);
}

#[test]
fn custom_table_scores() {
    let mut table = vec![-2i32; 65536];
    for a in 0..256usize {
        table[a * 256 + a] = 5;
    }
    let m = Matcher::Custom(table);
    assert_eq!(m.score(b'A', b'A'), 5);
    assert_eq!(m.score(b'A', b'C'), -2);
    assert_eq!(align("AC", "AC", &m), 10);
}

#[test]
fn matcher_accepts_alphabet() {
    assert!(Matcher::Blosum62.accepts("MKV*"));
    assert!(!Matcher::Blosum62.accepts("mkv"));
    assert!(Matcher::Identity.accepts("acgt"));
}

#[test]
fn zero_threshold_never_skips() {
    let f = KmerFraction::new(1, 2).unwrap();
    assert!(worth_aligning("ACGTTGCA", "ACGTTGCA", &f, 0));
    let full = KmerFraction::new(1, 1).unwrap();
    assert!(worth_aligning("AAAA", "TTTT", &full, 0));
}

#[test]
fn kmer_matches_are_counted() {
    let f = KmerFraction::new(1, 2).unwrap();
    // k = 2: AC, CG, GT each match once
    assert!(worth_aligning("ACGT", "ACGT", &f, 3));
    assert!(!worth_aligning("ACGT", "ACGT", &f, 4));
    assert!(!worth_aligning("AAAA", "TTTT", &f, 1));
    // k = 1 from the shorter sequence: 2 query windows, each found 4 times
    assert!(worth_aligning("AAAA", "AA", &f, 8));
    assert!(!worth_aligning("AAAA", "AA", &f, 9));
}

#[test]
fn zero_kmer_length_is_always_worth_aligning() {
    let f = KmerFraction::new(1, 10).unwrap();
    assert!(worth_aligning("ACG", "TTT", &f, 100));
}

#[test]
fn fraction_out_of_range_is_rejected() {
    assert!(KmerFraction::new(3, 2).is_none());
    assert!(KmerFraction::new(1, 0).is_none());
    assert!(KmerFraction::new(0, 5).is_some());
    assert!(KmerFraction::new(5, 5).is_some());
}

#[test]
fn sequence_set_rejects_mismatched_parts() {
    assert!(SequenceSet::new(vec!["A".to_string()], vec![]).is_none());
    assert!(SequenceSet::new(vec!["A".to_string()], vec!["A".repeat(100001)]).is_none());
    assert!(SequenceSet::new(vec!["A".to_string()], vec!["A".repeat(100000)]).is_some());
}

#[test]
fn pair_enumeration_is_triangular() {
    assert_eq!(pair_indices(0), vec![]);
    assert_eq!(pair_indices(3), vec![(0, 0), (1, 0), (1, 1), (2, 0), (2, 1), (2, 2)]);
    let pairs = pair_indices(5);
    let distinct: Vec<_> = pairs.iter().filter(|(i, j)| i != j).collect();
    assert_eq!(distinct.len(), 10);
}

#[test]
fn self_pair_gives_no_result() {
    let set = set_of(&[("A", "AAAA")]);
    assert!(evaluate_pair(&set, 0, 0, &Matcher::Identity, &None, 0).is_none());
}

#[test]
fn scenario_equal_sequences() {
    let set = set_of(&[("A", "AAAA"), ("B", "AAAA")]);
    let results = run_all(&set, &Matcher::Identity, &None, 0);
    assert_eq!(results.len(), 1);
    let r = &results[0];
    assert_eq!((r.query_id.as_str(), r.subject_id.as_str()), ("B", "A"));
    assert_eq!(r.score, Some(4));
    assert_eq!((r.seq1_len, r.seq2_len), (4, 4));
}

#[test]
fn scenario_disjoint_sequences() {
    let set = set_of(&[("A", "AAAA"), ("C", "TTTT")]);
    let results = run_all(&set, &Matcher::Identity, &None, 0);
    assert_eq!(results.len(), 1);
    let r = &results[0];
    let mut ids = vec![r.query_id.clone(), r.subject_id.clone()];
    ids.sort();
    assert_eq!(ids, vec!["A".to_string(), "C".to_string()]);
    assert_eq!(r.score, Some(-4));
    assert_eq!((r.seq1_len, r.seq2_len), (4, 4));
}

#[test]
fn scenario_three_keys() {
    let set = set_of(&[("X", "ACGT"), ("Y", "ACGA"), ("Z", "TTGCA")]);
    let results = run_all(&set, &Matcher::Identity, &None, 0);
    assert_eq!(results.len(), 3);
    assert!(results.iter().all(|r| r.score.is_some()));
    let mut pairs: Vec<(String, String)> = results
        .iter()
        .map(|r| {
            let mut p = [r.query_id.clone(), r.subject_id.clone()];
            p.sort();
            (p[0].clone(), p[1].clone())
        })
        .collect();
    pairs.sort();
    assert_eq!(
        pairs,
        vec![
            ("X".to_string(), "Y".to_string()),
            ("X".to_string(), "Z".to_string()),
            ("Y".to_string(), "Z".to_string()),
        ]
    );
}

#[test]
fn scenario_prefilter_skips_unrelated_pair() {
    let set = set_of(&[("A", "AAAA"), ("C", "TTTTTT")]);
    let f = Some(KmerFraction::new(1, 2).unwrap());
    let results = run_all(&set, &Matcher::Identity, &f, 1);
    assert_eq!(results.len(), 1);
    let r = &results[0];
    assert_eq!(r.score, None);
    assert_eq!(r.query_id, "C");
    assert_eq!((r.seq1_len, r.seq2_len), (6, 4));
}

#[test]
fn prefilter_keeps_related_pair() {
    let set = set_of(&[("A", "ACGTAC"), ("B", "ACGTAC")]);
    let f = Some(KmerFraction::new(1, 2).unwrap());
    let results = run_all(&set, &Matcher::Identity, &f, 1);
    assert_eq!(results[0].score, Some(6));
}
