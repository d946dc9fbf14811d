//! The k-mer prefilter: a cheap test of whether a full alignment is worth running.
use vstd::prelude::*;
use vstd::string::StringSliceAdditionalSpecFns;

verus! {

/// The fraction of the shorter sequence's length used as k-mer length,
/// as the ratio `num / den`, with `0 <= num <= den` and `den > 0`.
pub struct KmerFraction {
    pub num: u32,
    pub den: u32,
}

impl KmerFraction {
    pub open spec fn wf(&self) -> bool {
        self.den > 0 && self.num <= self.den
    }

    /// The fraction `num / den`; `None` (a configuration error) unless it lies in [0, 1].
    pub fn new(num: u32, den: u32) -> (r: Option<KmerFraction>)
        ensures
            r is Some <==> (den > 0 && num <= den),
            r matches Some(f) ==> f.num == num && f.den == den && f.wf(),
    {
        if den > 0 && num <= den {
            Some(KmerFraction { num, den })
        } else {
            None
        }
    }
}

/// A length-`k` window of `a` at `i` equals one of `b` at `j`.
pub open spec fn is_kmer_match(a: Seq<u8>, b: Seq<u8>, k: nat, i: int, j: int) -> bool {
    &&& 0 <= i && i + k <= a.len()
    &&& 0 <= j && j + k <= b.len()
    &&& a.subrange(i, i + k) == b.subrange(j, j + k)
}

/// All pairs of start positions of equal length-`k` windows of `a` and `b`.
pub open spec fn kmer_matches(a: Seq<u8>, b: Seq<u8>, k: nat) -> Set<(u32, u32)> {
    Set::new(|p: (u32, u32)| is_kmer_match(a, b, k, p.0 as int, p.1 as int))
}

/// The k-mer length for a query of length `query_len`: `floor(query_len * fraction)`.
pub open spec fn kmer_len(query_len: nat, f: KmerFraction) -> nat {
    (query_len * f.num as nat / f.den as nat) as nat
}

/// The shorter sequence (the first on a tie) and the other one.
pub open spec fn query_subject(a: Seq<u8>, b: Seq<u8>) -> (Seq<u8>, Seq<u8>) {
    if a.len() <= b.len() { (a, b) } else { (b, a) }
}

/// The prefilter's decision: true when the k-mer length is 0, or when the
/// query's k-mers match the subject at least `min_matches` times.
pub open spec fn spec_worth_aligning(a: Seq<u8>, b: Seq<u8>, f: KmerFraction, min_matches: nat) -> bool {
    let (q, s) = query_subject(a, b);
    let k = kmer_len(q.len(), f);
    k == 0 || kmer_matches(q, s, k).len() >= min_matches
}

/// Relies on bio::alignment::sparse::find_kmer_matches: each pair of start
/// positions of equal length-`k` windows of `a` and `b`, each pair once.
/// Positions are cast to `u32`, so lengths must fit.
#[verifier::external_body]
fn find_kmer_matches(a: &[u8], b: &[u8], k: usize) -> (r: Vec<(u32, u32)>)
    requires
        a@.len() <= u32::MAX,
        b@.len() <= u32::MAX,
    ensures
        r@.no_duplicates(),
        r@.to_set() == kmer_matches(a@, b@, k as nat),
{
    bio::alignment::sparse::find_kmer_matches(a, b, k)
}

/// Decides whether `seq1` and `seq2` share enough k-mers to be worth aligning.
pub fn worth_aligning(seq1: &str, seq2: &str, fraction: &KmerFraction, min_matches: usize) -> (r: bool)
    requires
        fraction.wf(),
        seq1.spec_bytes().len() <= u32::MAX,
        seq2.spec_bytes().len() <= u32::MAX,
    ensures
        r == spec_worth_aligning(seq1.spec_bytes(), seq2.spec_bytes(), *fraction, min_matches as nat),
{
    let a = seq1.as_bytes();
    let b = seq2.as_bytes();
    let (query, subject) = if a.len() <= b.len() { (a, b) } else { (b, a) };
    let qlen: u64 = query.len() as u64;
    let num: u64 = fraction.num as u64;
    let den: u64 = fraction.den as u64;
    proof {
        assert(qlen * num <= u32::MAX * u32::MAX) by (nonlinear_arith)
            requires qlen <= u32::MAX, num <= u32::MAX;
        assert((qlen * num) as int / (den as int) <= qlen) by (nonlinear_arith)
            requires num <= den, den > 0;
    }
    let k: u64 = qlen * num / den;
    if k == 0 {
        return true;
    }
    let matches = find_kmer_matches(query, subject, k as usize);
    proof {
        matches@.unique_seq_to_set();
    }
    matches.len() >= min_matches
}

/// With a threshold of zero matches the prefilter never skips a pair, whatever
/// the fraction: a sequence compared with itself is always worth aligning.
pub proof fn lemma_zero_threshold_never_skips(s: Seq<u8>, f: KmerFraction)
    ensures
        spec_worth_aligning(s, s, f, 0),
{
}

} // verus!
