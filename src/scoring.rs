use vstd::arithmetic::power2::{pow2, lemma2_to64};
use vstd::prelude::*;
use vstd::string::StringSliceAdditionalSpecFns;

verus! {

/// The highest score a candidate can reach: every scored position matches.
pub const MAX_SCORE: u8 = 255;

/// Number of scored positions: four of the prefix, four of the suffix.
pub const NUM_POSITIONS: usize = 8;

/// The configured weights, one per position
/// (prefix 0..3, then suffix 0..3); position `i` is worth `2^w[i]`.
pub open spec fn default_weights() -> Seq<u8> {
    seq![7u8, 5, 3, 1, 0, 2, 4, 6]
}

/// A weight assignment is usable when it is a permutation of `0..7`:
/// eight weights below 8, pairwise distinct.
pub open spec fn is_weight_permutation(w: Seq<u8>) -> bool {
    &&& w.len() == 8
    &&& forall|i: int| 0 <= i < 8 ==> #[trigger] w[i] < 8
    &&& forall|i: int, j: int| 0 <= i < 8 && 0 <= j < 8 && i != j ==> w[i] != w[j]
}

/// Whether scored position `i` (0..7) of `pattern` matches `candidate`:
/// positions 0..3 compare the first four bytes, positions 4..7 compare
/// pattern bytes 4..7 with the candidate's last four bytes.
pub open spec fn position_matches(pattern: Seq<u8>, candidate: Seq<u8>, i: int) -> bool {
    if i < 4 {
        pattern[i] == candidate[i]
    } else {
        pattern[i] == candidate[candidate.len() - 8 + i]
    }
}

/// The eight match flags of `candidate` against `pattern`.
pub open spec fn match_vector(pattern: Seq<u8>, candidate: Seq<u8>) -> Seq<bool> {
    Seq::new(8, |i: int| position_matches(pattern, candidate, i))
}

/// Sum of `2^w[i]` over the first `n` positions whose flag in `m` is set.
pub open spec fn weighted_sum(w: Seq<u8>, m: Seq<bool>, n: nat) -> nat
    decreases n,
{
    if n == 0 {
        0
    } else {
        weighted_sum(w, m, (n - 1) as nat) + if m[n - 1] {
            pow2(w[n - 1] as nat)
        } else {
            0
        }
    }
}

/// The score of `candidate` against `pattern` under weights `w`.
pub open spec fn score_spec(w: Seq<u8>, pattern: Seq<u8>, candidate: Seq<u8>) -> nat {
    weighted_sum(w, match_vector(pattern, candidate), 8)
}

/// Whether a pattern and a candidate can be scored: the pattern holds the
/// eight scored bytes and the candidate is at least eight bytes long.
pub open spec fn scorable(pattern: Seq<u8>, candidate: Seq<u8>) -> bool {
    pattern.len() >= 8 && candidate.len() >= 8
}

proof fn lemma_weighted_sum_le_full(w: Seq<u8>, m: Seq<bool>, n: nat)
    requires
        n <= w.len(),
        n <= m.len(),
    ensures
        weighted_sum(w, m, n) <= weighted_sum(w, Seq::new(m.len(), |i: int| true), n),
    decreases n,
{
    if n > 0 {
        lemma_weighted_sum_le_full(w, m, (n - 1) as nat);
    }
}

proof fn lemma_full_sum_bits(w: Seq<u8>)
    requires
        w.len() == 8,
        forall|i: int| 0 <= i < 8 ==> #[trigger] w[i] < 8,
    ensures
        weighted_sum(w, Seq::new(8, |i: int| true), 8) == pow2(w[0] as nat) + pow2(w[1] as nat)
            + pow2(w[2] as nat) + pow2(w[3] as nat) + pow2(w[4] as nat) + pow2(w[5] as nat)
            + pow2(w[6] as nat) + pow2(w[7] as nat),
{
    reveal_with_fuel(weighted_sum, 9);
}

/// `2^k` as a shifted bit, for a weight below 8.
proof fn lemma_bit_is_pow2(k: u8)
    requires
        k < 8,
    ensures
        (1u32 << k as u32) as nat == pow2(k as nat),
        (1u32 << k as u32) <= 128,
{
    let k32 = k as u32;
    assert(k32 < 8 ==> (1u32 << k32) <= 128) by (bit_vector);
    lemma2_to64();
    assert((1u32 << 0u32) == 1) by (bit_vector);
    assert((1u32 << 1u32) == 2) by (bit_vector);
    assert((1u32 << 2u32) == 4) by (bit_vector);
    assert((1u32 << 3u32) == 8) by (bit_vector);
    assert((1u32 << 4u32) == 16) by (bit_vector);
    assert((1u32 << 5u32) == 32) by (bit_vector);
    assert((1u32 << 6u32) == 64) by (bit_vector);
    assert((1u32 << 7u32) == 128) by (bit_vector);
}

/// Under any weight permutation, a full match is worth exactly `MAX_SCORE`.
pub proof fn lemma_full_match_is_max(w: Seq<u8>)
    requires
        is_weight_permutation(w),
    ensures
        weighted_sum(w, Seq::new(8, |i: int| true), 8) == MAX_SCORE as nat,
{
    lemma_full_sum_bits(w);
    let (a, b, c, d, e, f, g, h) = (
        w[0] as u32,
        w[1] as u32,
        w[2] as u32,
        w[3] as u32,
        w[4] as u32,
        w[5] as u32,
        w[6] as u32,
        w[7] as u32,
    );
    assert(w[0] != w[1] && w[0] != w[2] && w[0] != w[3] && w[0] != w[4] && w[0] != w[5]
        && w[0] != w[6] && w[0] != w[7]);
    assert(w[1] != w[2] && w[1] != w[3] && w[1] != w[4] && w[1] != w[5] && w[1] != w[6]
        && w[1] != w[7]);
    assert(w[2] != w[3] && w[2] != w[4] && w[2] != w[5] && w[2] != w[6] && w[2] != w[7]);
    assert(w[3] != w[4] && w[3] != w[5] && w[3] != w[6] && w[3] != w[7]);
    assert(w[4] != w[5] && w[4] != w[6] && w[4] != w[7]);
    assert(w[5] != w[6] && w[5] != w[7]);
    assert(w[6] != w[7]);
    assert(w[0] < 8 && w[1] < 8 && w[2] < 8 && w[3] < 8 && w[4] < 8 && w[5] < 8 && w[6] < 8
        && w[7] < 8);
    assert((1u32 << a) + (1u32 << b) + (1u32 << c) + (1u32 << d) + (1u32 << e) + (1u32 << f) + (
    1u32 << g) + (1u32 << h) == 255) by (bit_vector)
        requires
            a < 8 && b < 8 && c < 8 && d < 8 && e < 8 && f < 8 && g < 8 && h < 8,
            a != b && a != c && a != d && a != e && a != f && a != g && a != h,
            b != c && b != d && b != e && b != f && b != g && b != h,
            c != d && c != e && c != f && c != g && c != h,
            d != e && d != f && d != g && d != h,
            e != f && e != g && e != h,
            f != g && f != h,
            g != h,
    ;
    lemma_bit_is_pow2(w[0]);
    lemma_bit_is_pow2(w[1]);
    lemma_bit_is_pow2(w[2]);
    lemma_bit_is_pow2(w[3]);
    lemma_bit_is_pow2(w[4]);
    lemma_bit_is_pow2(w[5]);
    lemma_bit_is_pow2(w[6]);
    lemma_bit_is_pow2(w[7]);
    assert((1u32 << a) < 256 && (1u32 << b) < 256 && (1u32 << c) < 256 && (1u32 << d) < 256
        && (1u32 << e) < 256 && (1u32 << f) < 256 && (1u32 << g) < 256 && (1u32 << h) < 256);
}

/// A candidate that matches the pattern at all eight positions scores
/// `MAX_SCORE`, whatever the weight permutation.
pub proof fn lemma_full_match_scores_max(w: Seq<u8>, pattern: Seq<u8>, candidate: Seq<u8>)
    requires
        is_weight_permutation(w),
        scorable(pattern, candidate),
        forall|i: int| 0 <= i < 8 ==> #[trigger] position_matches(pattern, candidate, i),
    ensures
        score_spec(w, pattern, candidate) == MAX_SCORE as nat,
{
    assert(match_vector(pattern, candidate) =~= Seq::new(8, |i: int| true));
    lemma_full_match_is_max(w);
}

/// Every score lies in `0..=MAX_SCORE` under any weight permutation.
pub proof fn lemma_score_at_most_max(w: Seq<u8>, m: Seq<bool>)
    requires
        is_weight_permutation(w),
        m.len() == 8,
    ensures
        weighted_sum(w, m, 8) <= MAX_SCORE as nat,
{
    lemma_weighted_sum_le_full(w, m, 8);
    assert(Seq::new(m.len(), |i: int| true) =~= Seq::new(8, |i: int| true));
    lemma_full_match_is_max(w);
}


/// The default weights are a permutation of `0..7`.
pub proof fn lemma_default_weights_permutation()
    ensures
        is_weight_permutation(default_weights()),
{
    let w = default_weights();
    assert(w[0] == 7 && w[1] == 5 && w[2] == 3 && w[3] == 1 && w[4] == 0 && w[5] == 2 && w[6]
        == 4 && w[7] == 6);
}

/// The configured weights as an array.
pub fn position_weights() -> (w: [u8; 8])
    ensures
        w@ == default_weights(),
{
    let w: [u8; 8] = [7, 5, 3, 1, 0, 2, 4, 6];
    assert(w@ =~= default_weights());
    w
}

/// Why a pattern and a candidate could not be scored.
#[derive(Debug, Clone, Copy, PartialEq, Eq, Structural)]
pub enum ScoreError {
    /// The pattern holds fewer than the eight scored bytes.
    PatternTooShort,
    /// The candidate address is shorter than eight bytes.
    CandidateTooShort,
}

/// Score `candidate` against `pattern` under `weights`: each of the eight
/// positions that matches exactly adds `2^weights[i]`.
pub fn score_with_weights(weights: &[u8; 8], pattern: &str, candidate: &str) -> (r: u8)
    requires
        is_weight_permutation(weights@),
        scorable(pattern.spec_bytes(), candidate.spec_bytes()),
    ensures
        r as nat == score_spec(weights@, pattern.spec_bytes(), candidate.spec_bytes()),
{
    let p = pattern.as_bytes();
    let c = candidate.as_bytes();
    let n = c.len();
    let ghost m = match_vector(p@, c@);
    let mut acc: u32 = 0;
    let mut i: usize = 0;
    while i < NUM_POSITIONS
        invariant
            i <= 8,
            p@ == pattern.spec_bytes(),
            c@ == candidate.spec_bytes(),
            n == c@.len(),
            scorable(p@, c@),
            is_weight_permutation(weights@),
            m == match_vector(p@, c@),
            acc as nat == weighted_sum(weights@, m, i as nat),
            acc <= 128 * i,
        decreases 8 - i,
    {
        let j: usize = if i < 4 { i } else { n - 8 + i };
        let w = weights[i];
        proof {
            lemma_bit_is_pow2(w);
            assert(weights@[i as int] == w);
        }
        if p[i] == c[j] {
            acc = acc + (1u32 << w as u32);
        }
        i = i + 1;
    }
    proof {
        lemma_score_at_most_max(weights@, m);
    }
    acc as u8
}

/// Score `candidate` against `pattern` under the configured weights.
pub fn calculate_score(target: &str, candidate: &str) -> (r: u8)
    requires
        scorable(target.spec_bytes(), candidate.spec_bytes()),
    ensures
        r as nat == score_spec(default_weights(), target.spec_bytes(), candidate.spec_bytes()),
{
    let w = position_weights();
    proof {
        lemma_default_weights_permutation();
    }
    score_with_weights(&w, target, candidate)
}

/// Score under the configured weights, failing with a descriptive error when
/// the pattern or the candidate is too short to be scored.
pub fn checked_score(target: &str, candidate: &str) -> (r: Result<u8, ScoreError>)
    ensures
        target.spec_bytes().len() < 8 <==> r == Err::<u8, ScoreError>(ScoreError::PatternTooShort),
        target.spec_bytes().len() >= 8 && candidate.spec_bytes().len() < 8 <==> r == Err::<
            u8,
            ScoreError,
        >(ScoreError::CandidateTooShort),
        scorable(target.spec_bytes(), candidate.spec_bytes()) ==> r == Ok::<u8, ScoreError>(
            score_spec(default_weights(), target.spec_bytes(), candidate.spec_bytes()) as u8,
        ),
{
    if target.as_bytes().len() < NUM_POSITIONS {
        Err(ScoreError::PatternTooShort)
    } else if candidate.as_bytes().len() < NUM_POSITIONS {
        Err(ScoreError::CandidateTooShort)
    } else {
        let r = calculate_score(target, candidate);
        proof {
            lemma_default_weights_permutation();
            lemma_score_at_most_max(
                default_weights(),
                match_vector(target.spec_bytes(), candidate.spec_bytes()),
            );
        }
        Ok(r)
    }
}

} // verus!
