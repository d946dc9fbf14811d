//! Substitution scoring schemes.
use vstd::prelude::*;
use vstd::string::StringSliceAdditionalSpecFns;

verus! {

/// Largest magnitude allowed for an entry of a custom substitution table.
pub const SCORE_BOUND: i32 = 1000;

/// Number of entries of a custom substitution table: one per ordered byte pair.
pub const TABLE_SIZE: usize = 65536;

/// The BLOSUM62 substitution score of a pair of amino-acid symbols.
pub uninterp spec fn blosum62_of(a: u8, b: u8) -> int;

/// Symbols that the BLOSUM62 table knows: upper-case letters and `*`.
pub open spec fn is_blosum_symbol(a: u8) -> bool {
    (65 <= a && a <= 90) || a == 42
}

/// Relies on bio::scores::blosum62: the table entry for the pair, an integer
/// between -4 and 11. It indexes out of range outside the table's alphabet.
#[verifier::external_body]
fn blosum62_score(a: u8, b: u8) -> (r: i32)
    requires
        is_blosum_symbol(a),
        is_blosum_symbol(b),
    ensures
        r == blosum62_of(a, b),
        -4 <= r <= 11,
{
    bio::scores::blosum62(a, b)
}

/// A scoring function from a pair of symbols to an integer.
pub enum Matcher {
    /// BLOSUM62 substitution matrix.
    Blosum62,
    /// +1 for equal symbols, -1 otherwise.
    Identity,
    /// A caller-supplied table; the score of `(a, b)` is entry `a * 256 + b`.
    Custom(Vec<i32>),
}

impl Matcher {
    /// Well-formedness: a custom table has one bounded entry per byte pair.
    pub open spec fn wf(&self) -> bool {
        match self {
            Matcher::Custom(t) => t@.len() == TABLE_SIZE && forall|k: int|
                0 <= k < t@.len() ==> -SCORE_BOUND <= #[trigger] t@[k] <= SCORE_BOUND,
            _ => true,
        }
    }

    /// Whether the scheme gives a score for symbol `a`.
    pub open spec fn accepts_symbol(&self, a: u8) -> bool {
        match self {
            Matcher::Blosum62 => is_blosum_symbol(a),
            _ => true,
        }
    }

    /// Whether the scheme gives a score for every symbol of `s`.
    pub open spec fn accepts_all(&self, s: Seq<u8>) -> bool {
        forall|k: int| 0 <= k < s.len() ==> self.accepts_symbol(#[trigger] s[k])
    }

    /// The score of the symbol pair `(a, b)`.
    pub open spec fn spec_score(&self, a: u8, b: u8) -> int {
        match self {
            Matcher::Blosum62 => blosum62_of(a, b),
            Matcher::Identity => if a == b { 1 } else { -1 },
            Matcher::Custom(t) => t@[a as int * 256 + b as int] as int,
        }
    }

    /// Scores the symbol pair `(a, b)`.
    pub fn score(&self, a: u8, b: u8) -> (r: i32)
        requires
            self.wf(),
            self.accepts_symbol(a),
            self.accepts_symbol(b),
        ensures
            r == self.spec_score(a, b),
            -SCORE_BOUND <= r <= SCORE_BOUND,
    {
        match self {
            Matcher::Blosum62 => blosum62_score(a, b),
            Matcher::Identity => if a == b { 1 } else { -1 },
            Matcher::Custom(t) => {
                let idx: usize = a as usize * 256 + b as usize;
                t[idx]
            },
        }
    }

    /// Tells whether every symbol of `s` can be scored by this scheme.
    pub fn accepts(&self, s: &str) -> (r: bool)
        ensures
            r == self.accepts_all(s.spec_bytes()),
    {
        let b = s.as_bytes();
        let mut i: usize = 0;
        while i < b.len()
            invariant
                b@ == s.spec_bytes(),
                0 <= i <= b@.len(),
                forall|k: int| 0 <= k < i ==> self.accepts_symbol(#[trigger] b@[k]),
            decreases b@.len() - i,
        {
            let c = b[i];
            let ok = match self {
                Matcher::Blosum62 => (65 <= c && c <= 90) || c == 42,
                _ => true,
            };
            if !ok {
                return false;
            }
            i += 1;
        }
        true
    }
}

} // verus!
