use crate::scoring::MAX_SCORE;
use vstd::prelude::*;

verus! {

/// The category of a target. Purely descriptive: it does not affect scoring.
#[derive(Debug, Clone, Copy, PartialEq, Eq, Structural)]
pub enum TargetType {
    Wallet,
    Token,
}

/// One stored target: a pattern to match, and the best key pair found so far.
#[derive(Debug, Clone)]
pub struct Model {
    pub id: String,
    pub address: String,
    /// Pattern: bytes 0..3 are the wanted prefix, bytes 4..7 the wanted suffix.
    pub target: String,
    /// Best score reached so far; starts at 0.
    pub score: i32,
    pub twin_address: Option<String>,
    pub twin_private_key: Option<String>,
    pub target_type: TargetType,
    /// Cleared whenever a new best key pair is recorded: the pair still
    /// needs activation outside.
    pub deployed: bool,
    /// Milliseconds since the Unix epoch.
    pub created_at: i64,
    /// Milliseconds since the Unix epoch.
    pub updated_at: i64,
}

/// Scores strictly below this bound still have room to improve.
pub const ACTIVE_SCORE_LIMIT: i32 = 255;

/// A target stays in the search while its score is below the maximum.
pub open spec fn is_active_score(score: int) -> bool {
    score < MAX_SCORE as int
}

/// The stored score after a conditional update that submits `submitted`
/// against a stored `current`.
pub open spec fn after_update(current: int, submitted: int) -> int {
    if current < submitted {
        submitted
    } else {
        current
    }
}

/// The stored score after the attempts of `attempts`, in order, starting
/// from `start`.
pub open spec fn settle(start: int, attempts: Seq<int>) -> int
    decreases attempts.len(),
{
    if attempts.len() == 0 {
        start
    } else {
        after_update(settle(start, attempts.drop_last()), attempts.last())
    }
}

/// Whether attempt `i` of `attempts` succeeds: the score stored when it runs
/// is strictly below the score it submits.
pub open spec fn wins(start: int, attempts: Seq<int>, i: int) -> bool {
    settle(start, attempts.take(i)) < attempts[i]
}

impl Model {
    /// Whether the target is still searched for.
    pub fn is_active(&self) -> (r: bool)
        ensures
            r == is_active_score(self.score as int),
    {
        self.score < ACTIVE_SCORE_LIMIT
    }

    /// The conditional update: record `score` with its key pair only if the
    /// stored score is strictly lower. On success the key pair replaces the
    /// old one, the deployed flag is cleared and `updated_at` becomes `now`;
    /// otherwise nothing changes.
    pub fn conditional_update(
        &mut self,
        score: i32,
        twin_address: String,
        twin_private_key: String,
        now: i64,
    ) -> (updated: bool)
        ensures
            updated == (old(self).score < score),
            final(self).score as int == after_update(old(self).score as int, score as int),
            updated ==> final(self).twin_address == Some(twin_address),
            updated ==> final(self).twin_private_key == Some(twin_private_key),
            updated ==> !final(self).deployed,
            updated ==> final(self).updated_at == now,
            updated ==> final(self).id == old(self).id,
            updated ==> final(self).address == old(self).address,
            updated ==> final(self).target == old(self).target,
            updated ==> final(self).target_type == old(self).target_type,
            updated ==> final(self).created_at == old(self).created_at,
            !updated ==> *final(self) == *old(self),
    {
        if self.score < score {
            self.score = score;
            self.twin_address = Some(twin_address);
            self.twin_private_key = Some(twin_private_key);
            self.deployed = false;
            self.updated_at = now;
            true
        } else {
            false
        }
    }
}

proof fn lemma_settle_prefix_le(start: int, attempts: Seq<int>, i: int)
    requires
        0 <= i <= attempts.len(),
    ensures
        start <= settle(start, attempts.take(i)) <= settle(start, attempts),
        forall|k: int| 0 <= k < i ==> #[trigger] attempts[k] <= settle(start, attempts.take(i)),
    decreases attempts.len(),
{
    if attempts.len() > 0 {
        let rest = attempts.drop_last();
        if i == attempts.len() {
            assert(attempts.take(i) =~= attempts);
            lemma_settle_prefix_le(start, rest, i - 1);
            assert(rest.take(i - 1) =~= rest);
            assert forall|k: int| 0 <= k < i implies attempts[k] <= settle(
                start,
                attempts.take(i),
            ) by {
                if k < i - 1 {
                    assert(rest[k] == attempts[k]);
                }
            }
        } else {
            lemma_settle_prefix_le(start, rest, i);
            assert(rest.take(i) =~= attempts.take(i));
            assert forall|k: int| 0 <= k < i implies attempts[k] <= settle(
                start,
                attempts.take(i),
            ) by {
                assert(rest[k] == attempts[k]);
            }
        }
    }
}

/// A conditional update never lowers the stored score: every prefix of a
/// sequence of attempts leaves a score at least the start, at least every
/// score submitted so far, and at most what the whole sequence leaves.
pub proof fn lemma_update_never_decreases(start: int, attempts: Seq<int>, i: int, j: int)
    requires
        0 <= i <= j <= attempts.len(),
    ensures
        start <= settle(start, attempts.take(i)) <= settle(start, attempts.take(j)),
        forall|k: int| 0 <= k < i ==> #[trigger] attempts[k] <= settle(start, attempts.take(i)),
{
    lemma_settle_prefix_le(start, attempts.take(j), i);
    assert(attempts.take(j).take(i) =~= attempts.take(i));
    lemma_settle_prefix_le(start, attempts, i);
}

/// After every attempt has run, the stored score is the greatest score among
/// the successful attempts, or the start when none succeeded; no successful
/// score exceeds it.
pub proof fn lemma_settle_is_max_of_winners(start: int, attempts: Seq<int>)
    ensures
        forall|k: int| 0 <= k < attempts.len() && wins(start, attempts, k) ==> attempts[k] <= settle(start, attempts),
        settle(start, attempts) == start || exists|k: int|
            0 <= k < attempts.len() && wins(start, attempts, k) && attempts[k] == settle(
                start,
                attempts,
            ),
    decreases attempts.len(),
{
    lemma_settle_prefix_le(start, attempts, attempts.len() as int);
    if attempts.len() > 0 {
        let rest = attempts.drop_last();
        let n = attempts.len() - 1;
        lemma_settle_is_max_of_winners(start, rest);
        assert(attempts.take(n) =~= rest);
        assert forall|k: int| 0 <= k < n implies wins(start, attempts, k) == wins(start, rest, k) by {
            assert(attempts.take(k) =~= rest.take(k));
        }
        if settle(start, rest) < attempts[n] {
            assert(wins(start, attempts, n));
        } else if settle(start, rest) != start {
            let k = choose|k: int|
                0 <= k < rest.len() && wins(start, rest, k) && rest[k] == settle(start, rest);
            assert(wins(start, attempts, k) && attempts[k] == settle(start, attempts));
        }
    }
}

/// Among attempts that submit the same score, at most one succeeds: once it
/// has, the stored score is no longer below that score.
pub proof fn lemma_one_winner_per_score(start: int, attempts: Seq<int>, i: int, j: int)
    requires
        0 <= i < j < attempts.len(),
        attempts[i] == attempts[j],
    ensures
        !(wins(start, attempts, i) && wins(start, attempts, j)),
{
    lemma_update_never_decreases(start, attempts, i + 1, j);
    assert(attempts.take(i + 1).drop_last() =~= attempts.take(i));
    assert(attempts.take(i + 1).last() == attempts[i]);
}

} // verus!
