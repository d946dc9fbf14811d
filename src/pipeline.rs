//! Pair enumeration and the evaluation of one pair into a result record.
use vstd::prelude::*;
use vstd::string::StringSliceAdditionalSpecFns;
use vstd::utf8::encode_utf8;
use crate::global::{align, alignable, global_score, MAX_SEQ_LEN};
use crate::kmer::{spec_worth_aligning, worth_aligning, KmerFraction};
use crate::scoring::Matcher;

verus! {

/// The outcome of comparing one pair of sequences.
pub struct AlignmentResult {
    /// Identifier of the query sequence.
    pub query_id: String,
    /// Identifier of the subject sequence.
    pub subject_id: String,
    /// Alignment score; `None` when the prefilter skipped the pair.
    pub score: Option<i32>,
    /// Length of the query sequence.
    pub seq1_len: usize,
    /// Length of the subject sequence.
    pub seq2_len: usize,
}

/// The symbols (bytes) of a sequence held as a string.
pub open spec fn bytes_of(s: String) -> Seq<u8> {
    encode_utf8(s@)
}

/// Identifiers and their sequences, in a fixed order; `ids[k]` names `seqs[k]`.
pub struct SequenceSet {
    pub ids: Vec<String>,
    pub seqs: Vec<String>,
}

impl SequenceSet {
    pub open spec fn wf(&self) -> bool {
        &&& self.ids@.len() == self.seqs@.len()
        &&& forall|k: int| 0 <= k < self.seqs@.len() ==> bytes_of(#[trigger] self.seqs@[k]).len() <= MAX_SEQ_LEN
    }

    /// Every sequence can be scored by `m`.
    pub open spec fn scored_by(&self, m: Matcher) -> bool {
        forall|k: int| 0 <= k < self.seqs@.len() ==> m.accepts_all(bytes_of(#[trigger] self.seqs@[k]))
    }

    /// Pairs identifiers with sequences; `None` when the counts differ or a
    /// sequence is longer than the aligner accepts.
    pub fn new(ids: Vec<String>, seqs: Vec<String>) -> (r: Option<SequenceSet>)
        ensures
            r is Some <==> (ids@.len() == seqs@.len() && forall|k: int|
                0 <= k < seqs@.len() ==> bytes_of(#[trigger] seqs@[k]).len() <= MAX_SEQ_LEN),
            r matches Some(set) ==> set.ids == ids && set.seqs == seqs && set.wf(),
    {
        if ids.len() != seqs.len() {
            return None;
        }
        let mut k: usize = 0;
        while k < seqs.len()
            invariant
                0 <= k <= seqs@.len(),
                forall|t: int| 0 <= t < k ==> bytes_of(#[trigger] seqs@[t]).len() <= MAX_SEQ_LEN,
            decreases seqs@.len() - k,
        {
            let s: &str = seqs[k].as_str();
            assert(bytes_of(seqs@[k as int]) == s.spec_bytes());
            if s.as_bytes().len() > MAX_SEQ_LEN {
                return None;
            }
            k += 1;
        }
        Some(SequenceSet { ids, seqs })
    }

    /// Number of sequences.
    pub fn len(&self) -> (r: usize)
        ensures
            r == self.seqs@.len(),
    {
        self.seqs.len()
    }

    /// Tells whether `m` can score every sequence of the set.
    pub fn accepted_by(&self, m: &Matcher) -> (r: bool)
        ensures
            r == self.scored_by(*m),
    {
        let mut k: usize = 0;
        while k < self.seqs.len()
            invariant
                0 <= k <= self.seqs@.len(),
                forall|t: int| 0 <= t < k ==> m.accepts_all(bytes_of(#[trigger] self.seqs@[t])),
            decreases self.seqs@.len() - k,
        {
            let s: &str = self.seqs[k].as_str();
            assert(bytes_of(self.seqs@[k as int]) == s.spec_bytes());
            if !m.accepts(s) {
                return false;
            }
            k += 1;
        }
        true
    }
}

/// Number of pairs `(i, j)` with `j <= i < n`.
pub open spec fn tri(n: nat) -> nat
    decreases n,
{
    if n == 0 { 0 } else { tri((n - 1) as nat) + n }
}

/// The pairs `(i, j)` with `0 <= j <= i < n`, by increasing `i`, then `j`.
pub open spec fn triangle(n: nat) -> Seq<(usize, usize)>
    decreases n,
{
    if n == 0 {
        Seq::empty()
    } else {
        triangle((n - 1) as nat) + Seq::new(n, |j: int| ((n - 1) as usize, j as usize))
    }
}

proof fn lemma_triangle_len(n: nat)
    ensures
        triangle(n).len() == tri(n),
    decreases n,
{
    if n > 0 {
        lemma_triangle_len((n - 1) as nat);
    }
}

proof fn lemma_tri_mono(a: nat, b: nat)
    requires
        a <= b,
    ensures
        tri(a) <= tri(b),
    decreases b,
{
    if a < b {
        lemma_tri_mono(a, (b - 1) as nat);
    }
}

/// Lists the pairs of indices to evaluate for `n` sequences: `(i, j)` for
/// `0 <= j <= i < n`, self pairs included.
pub fn pair_indices(n: usize) -> (r: Vec<(usize, usize)>)
    requires
        tri(n as nat) <= usize::MAX,
    ensures
        r@ == triangle(n as nat),
{
    let mut r: Vec<(usize, usize)> = Vec::new();
    let mut i: usize = 0;
    while i < n
        invariant
            0 <= i <= n,
            tri(n as nat) <= usize::MAX,
            r@ == triangle(i as nat),
        decreases n - i,
    {
        proof {
            lemma_triangle_len(i as nat);
            lemma_tri_mono((i + 1) as nat, n as nat);
        }
        let mut j: usize = 0;
        while j <= i
            invariant
                0 <= i < n,
                j <= i + 1,
                tri((i + 1) as nat) <= usize::MAX,
                r@.len() == tri(i as nat) + j,
                r@ == triangle(i as nat) + Seq::new(j as nat, |t: int| (i, t as usize)),
            decreases i + 1 - j,
        {
            r.push((i, j));
            j += 1;
            assert(r@ =~= triangle(i as nat) + Seq::new(j as nat, |t: int| (i, t as usize)));
        }
        assert(r@ =~= triangle((i + 1) as nat));
        i += 1;
    }
    r
}

/// The enumeration holds each unordered pair of distinct indices below `n`
/// exactly once, as `(larger, smaller)`; its other entries are self pairs.
pub proof fn lemma_pairs_cover_distinct_once(n: nat)
    requires
        n <= usize::MAX,
    ensures
        forall|k: int| 0 <= k < triangle(n).len() ==>
            (#[trigger] triangle(n)[k]).1 <= triangle(n)[k].0 < n,
        forall|a: usize, b: usize| b < a < n ==> triangle(n).contains((a, b)),
        triangle(n).no_duplicates(),
    decreases n,
{
    if n > 0 {
        let p = (n - 1) as nat;
        lemma_pairs_cover_distinct_once(p);
        let row = Seq::new(n, |j: int| ((n - 1) as usize, j as usize));
        let t = triangle(n);
        assert(t == triangle(p) + row);
        assert forall|k: int| 0 <= k < t.len() implies (#[trigger] t[k]).1 <= t[k].0 < n by {
            if k >= triangle(p).len() {
                assert(t[k] == row[k - triangle(p).len()]);
            } else {
                assert(t[k] == triangle(p)[k]);
                assert(triangle(p)[k].1 <= triangle(p)[k].0 < p);
            }
        }
        assert forall|a: usize, b: usize| b < a < n implies t.contains((a, b)) by {
            if a == n - 1 {
                assert(t[triangle(p).len() + b] == (a, b));
            } else {
                assert(triangle(p).contains((a, b)));
                let k = choose|k: int| 0 <= k < triangle(p).len() && triangle(p)[k] == (a, b);
                assert(t[k] == (a, b));
            }
        }
        assert forall|k1: int, k2: int| 0 <= k1 < t.len() && 0 <= k2 < t.len() && k1 != k2
            implies t[k1] != t[k2] by {
            let q = triangle(p).len();
            if k1 < q && k2 < q {
                assert(t[k1] == triangle(p)[k1] && t[k2] == triangle(p)[k2]);
            } else if k1 >= q && k2 >= q {
                assert(t[k1] == row[k1 - q] && t[k2] == row[k2 - q]);
            } else if k1 < q {
                assert(t[k1] == triangle(p)[k1] && t[k2] == row[k2 - q]);
            } else {
                assert(t[k2] == triangle(p)[k2] && t[k1] == row[k1 - q]);
            }
        }
    }
}

/// Reads an optional score as an optional integer.
pub open spec fn opt_int(o: Option<i32>) -> Option<int> {
    match o {
        Some(v) => Some(v as int),
        None => None,
    }
}

/// The score owed for query `x` against subject `y`: `None` exactly when a
/// prefilter is configured and judges the pair not worth aligning.
pub open spec fn pair_score(x: Seq<u8>, y: Seq<u8>, m: Matcher, fraction: Option<KmerFraction>, min_matches: nat) -> Option<int> {
    match fraction {
        None => Some(global_score(x, y, m)),
        Some(f) => if spec_worth_aligning(x, y, f, min_matches) {
            Some(global_score(x, y, m))
        } else {
            None
        },
    }
}

/// Evaluates the enumerated pair `(i, j)`: no result for a self pair; otherwise
/// the prefilter (when a fraction is given), then the alignment, and a result
/// that carries both identifiers and both sequence lengths.
pub fn evaluate_pair(
    set: &SequenceSet,
    i: usize,
    j: usize,
    matcher: &Matcher,
    fraction: &Option<KmerFraction>,
    min_matches: usize,
) -> (r: Option<AlignmentResult>)
    requires
        set.wf(),
        matcher.wf(),
        set.scored_by(*matcher),
        i < set.seqs@.len(),
        j < set.seqs@.len(),
        fraction matches Some(f) ==> f.wf(),
    ensures
        r is None <==> i == j,
        r matches Some(res) ==> {
            &&& res.query_id@ == set.ids@[i as int]@
            &&& res.subject_id@ == set.ids@[j as int]@
            &&& res.seq1_len == bytes_of(set.seqs@[i as int]).len()
            &&& res.seq2_len == bytes_of(set.seqs@[j as int]).len()
            &&& opt_int(res.score) == pair_score(
                bytes_of(set.seqs@[i as int]),
                bytes_of(set.seqs@[j as int]),
                *matcher,
                *fraction,
                min_matches as nat,
            )
        },
{
    if i == j {
        return None;
    }
    let query: &str = set.seqs[i].as_str();
    let subject: &str = set.seqs[j].as_str();
    proof {
        assert(bytes_of(set.seqs@[i as int]).len() <= MAX_SEQ_LEN);
        assert(bytes_of(set.seqs@[j as int]).len() <= MAX_SEQ_LEN);
        assert(matcher.accepts_all(bytes_of(set.seqs@[i as int])));
        assert(matcher.accepts_all(bytes_of(set.seqs@[j as int])));
    }
    let score: Option<i32> = match fraction {
        Some(f) => {
            if worth_aligning(query, subject, f, min_matches) {
                Some(align(query, subject, matcher))
            } else {
                None
            }
        },
        None => Some(align(query, subject, matcher)),
    };
    Some(AlignmentResult {
        query_id: set.ids[i].clone(),
        subject_id: set.ids[j].clone(),
        score,
        seq1_len: query.len(),
        seq2_len: subject.len(),
    })
}

} // verus!
