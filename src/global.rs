//! Optimal global alignment score under affine gap penalties.
use vstd::prelude::*;
use vstd::string::StringSliceAdditionalSpecFns;
use crate::scoring::{Matcher, SCORE_BOUND};
use bio::alignment::pairwise::Aligner;

verus! {

/// Score for the first position of a gap.
pub const GAP_OPEN: i32 = -10;

/// Score for each further position of a gap.
pub const GAP_EXTEND: i32 = -1;

/// Longest sequence that the aligner accepts, so that every score fits in `i32`.
pub const MAX_SEQ_LEN: usize = 100000;

pub open spec fn max2(a: int, b: int) -> int {
    if a >= b { a } else { b }
}

pub open spec fn max3(a: int, b: int, c: int) -> int {
    max2(max2(a, b), c)
}

/// Best score of an alignment of `x[..i]` with `y[..j]`, in any final state.
pub open spec fn best(x: Seq<u8>, y: Seq<u8>, m: Matcher, i: nat, j: nat) -> int
    decreases i + j, 2nat,
{
    if i == 0 && j == 0 {
        0
    } else if i == 0 {
        gap_in_x(x, y, m, 0, j)
    } else if j == 0 {
        gap_in_y(x, y, m, i, 0)
    } else {
        max3(
            best(x, y, m, (i - 1) as nat, (j - 1) as nat) + m.spec_score(x[i - 1], y[j - 1]),
            gap_in_y(x, y, m, i, j),
            gap_in_x(x, y, m, i, j),
        )
    }
}

/// Best score of an alignment of `x[..i]` with `y[..j]` that ends with `x[i - 1]`
/// set against a gap (`i >= 1`).
pub open spec fn gap_in_y(x: Seq<u8>, y: Seq<u8>, m: Matcher, i: nat, j: nat) -> int
    decreases i + j, 1nat,
{
    if i == 0 {
        0
    } else if i == 1 {
        best(x, y, m, 0, j) + GAP_OPEN
    } else {
        max2(
            best(x, y, m, (i - 1) as nat, j) + GAP_OPEN,
            gap_in_y(x, y, m, (i - 1) as nat, j) + GAP_EXTEND,
        )
    }
}

/// Best score of an alignment of `x[..i]` with `y[..j]` that ends with `y[j - 1]`
/// set against a gap (`j >= 1`).
pub open spec fn gap_in_x(x: Seq<u8>, y: Seq<u8>, m: Matcher, i: nat, j: nat) -> int
    decreases i + j, 1nat,
{
    if j == 0 {
        0
    } else if j == 1 {
        best(x, y, m, i, 0) + GAP_OPEN
    } else {
        max2(
            best(x, y, m, i, (j - 1) as nat) + GAP_OPEN,
            gap_in_x(x, y, m, i, (j - 1) as nat) + GAP_EXTEND,
        )
    }
}

/// The optimal global alignment score of `x` against `y`.
pub open spec fn global_score(x: Seq<u8>, y: Seq<u8>, m: Matcher) -> int {
    best(x, y, m, x.len(), y.len())
}

/// What `align` needs of its inputs: bounded lengths, and symbols the scheme scores.
pub open spec fn alignable(x: Seq<u8>, y: Seq<u8>, m: Matcher) -> bool {
    &&& m.wf()
    &&& x.len() <= MAX_SEQ_LEN
    &&& y.len() <= MAX_SEQ_LEN
    &&& m.accepts_all(x)
    &&& m.accepts_all(y)
}

/// Relies on bio's `Aligner::global`: the optimal global alignment score with
/// affine gaps, where a gap of length `L` scores `gap_open + (L - 1) * gap_extend`
/// and a gap may follow any state. With bounded lengths and scores no clipped
/// path (scored from bio's `MIN_SCORE`) beats a real one, and nothing overflows.
#[verifier::external_body]
fn bio_global_score(x: &[u8], y: &[u8], m: &Matcher) -> (r: i32)
    requires
        alignable(x@, y@, *m),
    ensures
        r == global_score(x@, y@, *m),
{
    let mut aligner = Aligner::with_capacity(x.len(), y.len(), GAP_OPEN, GAP_EXTEND, |a: u8, b: u8| m.score(a, b));
    aligner.global(x, y).score
}

/// Computes the optimal global alignment score of `seq1` against `seq2`.
pub fn align(seq1: &str, seq2: &str, matcher: &Matcher) -> (r: i32)
    requires
        alignable(seq1.spec_bytes(), seq2.spec_bytes(), *matcher),
    ensures
        r == global_score(seq1.spec_bytes(), seq2.spec_bytes(), *matcher),
{
    bio_global_score(seq1.as_bytes(), seq2.as_bytes(), matcher)
}

proof fn lemma_identity_upper(x: Seq<u8>, y: Seq<u8>, i: nat, j: nat)
    ensures
        best(x, y, Matcher::Identity, i, j) <= if i <= j { i as int } else { j as int },
        i >= 1 ==> gap_in_y(x, y, Matcher::Identity, i, j) <= (if i - 1 <= j { i - 1 } else { j as int }) - 10,
        j >= 1 ==> gap_in_x(x, y, Matcher::Identity, i, j) <= (if j - 1 <= i { j - 1 } else { i as int }) - 10,
    decreases i + j,
{
    let m = Matcher::Identity;
    if i >= 1 {
        lemma_identity_upper(x, y, (i - 1) as nat, j);
    }
    if j >= 1 {
        lemma_identity_upper(x, y, i, (j - 1) as nat);
    }
    if i >= 1 && j >= 1 {
        lemma_identity_upper(x, y, (i - 1) as nat, (j - 1) as nat);
    }
    if i >= 1 {
        assert(gap_in_y(x, y, m, i, j) <= (if i - 1 <= j { i - 1 } else { j as int }) - 10);
    }
    if j >= 1 {
        assert(gap_in_x(x, y, m, i, j) <= (if j - 1 <= i { j - 1 } else { i as int }) - 10);
    }
    if i >= 1 && j >= 1 {
        assert(m.spec_score(x[i - 1], y[j - 1]) <= 1);
    }
}

proof fn lemma_identity_diagonal(s: Seq<u8>, i: nat)
    requires
        i <= s.len(),
    ensures
        best(s, s, Matcher::Identity, i, i) >= i,
    decreases i,
{
    if i >= 1 {
        lemma_identity_diagonal(s, (i - 1) as nat);
        assert(Matcher::Identity.spec_score(s[i - 1], s[i - 1]) == 1);
    } else {
        assert(best(s, s, Matcher::Identity, 0, 0) == 0);
    }
}

/// Aligning a sequence with itself under identity scoring scores its length:
/// every position matches and no gap is needed.
pub proof fn lemma_self_alignment_identity(s: Seq<u8>)
    requires
        s.len() > 0,
    ensures
        global_score(s, s, Matcher::Identity) == s.len(),
{
    lemma_identity_upper(s, s, s.len(), s.len());
    lemma_identity_diagonal(s, s.len());
}

proof fn lemma_leading_gap(x: Seq<u8>, y: Seq<u8>, m: Matcher, j: nat)
    requires
        j >= 1,
    ensures
        best(x, y, m, 0, j) == GAP_OPEN + GAP_EXTEND * (j - 1),
        gap_in_x(x, y, m, 0, j) == GAP_OPEN + GAP_EXTEND * (j - 1),
    decreases j,
{
    assert(best(x, y, m, 0, 0) == 0);
    if j > 1 {
        lemma_leading_gap(x, y, m, (j - 1) as nat);
    }
    assert(gap_in_x(x, y, m, 0, j) == GAP_OPEN + GAP_EXTEND * (j - 1));
}

/// Aligning the empty sequence against a nonempty one scores a single gap run,
/// `-10 - (len - 1)`; two empty sequences score 0.
pub proof fn lemma_empty_alignment(s: Seq<u8>, m: Matcher)
    ensures
        s.len() > 0 ==> global_score(Seq::empty(), s, m) == -10 - (s.len() - 1),
        global_score(Seq::<u8>::empty(), Seq::<u8>::empty(), m) == 0,
{
    if s.len() > 0 {
        lemma_leading_gap(Seq::empty(), s, m, s.len());
    }
}

} // verus!
