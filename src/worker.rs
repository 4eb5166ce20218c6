use crate::scoring::{
    checked_score, default_weights, lemma_default_weights_permutation, lemma_score_at_most_max,
    match_vector, score_spec, scorable, ScoreError,
};
use crate::target::Model;
use vstd::prelude::*;
use vstd::string::StringSliceAdditionalSpecFns;
use vstd::utf8::encode_utf8;

verus! {

/// Candidates generated between two refreshes of the target cache.
pub const BATCH_SIZE: u64 = 2_500_000;

/// Seconds an idle worker waits before it looks for targets again.
pub const IDLE_CHECK_INTERVAL_SECS: u64 = 30;

/// Improvements at or above this score are reported outside.
pub const DISCOVERY_THRESHOLD: u8 = 0b11100000;

/// What a worker is doing.
#[derive(Debug, Clone, Copy, PartialEq, Eq, Structural)]
pub enum Phase {
    /// Fetching the active targets.
    Refreshing,
    /// Generating and scoring candidates against the cached targets.
    Searching,
    /// Waiting, because no target is active.
    Idling,
}

/// What a refresh led to.
#[derive(Debug, Clone, Copy, PartialEq, Eq, Structural)]
pub enum RefreshOutcome {
    /// No active target (or the store failed): wait, then refresh again.
    Idle,
    /// Search the fetched targets; `targets_changed` tells whether their
    /// number differs from the previous non-empty refresh.
    Search { targets_changed: bool },
}

/// A cached target that a candidate beats.
#[derive(Debug, Clone, Copy, PartialEq, Eq, Structural)]
pub struct Improvement {
    /// Position of the target in the cache.
    pub index: usize,
    /// The candidate's score against it.
    pub score: u8,
}

/// The state of one search worker. Workers share nothing but the store.
#[derive(Debug)]
pub struct Worker {
    pub thread_id: u32,
    /// Next sequence number to generate.
    pub nonce: u64,
    /// First sequence number past the current batch.
    pub batch_end: u64,
    /// Number of targets at the last non-empty refresh.
    pub target_count: u64,
    /// The cached active targets.
    pub targets: Vec<Model>,
    pub phase: Phase,
}

/// A discovery report: the new best key pair of a target, and the pair it
/// replaced, so that the receiver can retire the old one.
#[derive(Debug, Clone)]
pub struct DiscoveryPayload {
    pub target_id: String,
    pub score: u8,
    pub twin_address: String,
    pub twin_private_key: String,
    pub old_twin_address: Option<String>,
    pub old_twin_private_key: Option<String>,
}

/// The bytes of a target's pattern.
pub open spec fn pattern_bytes(t: Model) -> Seq<u8> {
    encode_utf8(t.target@)
}

/// Every cached target can be scored against `candidate`.
pub open spec fn all_scorable(targets: Seq<Model>, candidate: Seq<u8>) -> bool {
    forall|k: int| 0 <= k < targets.len() ==> scorable(pattern_bytes(#[trigger] targets[k]), candidate)
}

/// The improvements that `candidate` brings over the first `n` targets, in
/// cache order: those whose recorded score its score exceeds.
pub open spec fn improvements_spec(targets: Seq<Model>, candidate: Seq<u8>, n: nat) -> Seq<
    Improvement,
>
    decreases n,
{
    if n == 0 {
        Seq::empty()
    } else {
        let prev = improvements_spec(targets, candidate, (n - 1) as nat);
        let s = score_spec(default_weights(), pattern_bytes(targets[n - 1]), candidate);
        if s > targets[n - 1].score {
            prev.push(Improvement { index: (n - 1) as usize, score: s as u8 })
        } else {
            prev
        }
    }
}

/// The end of a batch that starts at `nonce`, held at `u64::MAX`.
pub open spec fn batch_end_after(nonce: u64) -> u64 {
    if nonce as int + BATCH_SIZE as int > u64::MAX as int {
        u64::MAX
    } else {
        (nonce + BATCH_SIZE) as u64
    }
}

/// Whether a candidate score beats a recorded score.
pub fn improves(score: u8, recorded: i32) -> (r: bool)
    ensures
        r == (score as int > recorded as int),
{
    score as i32 > recorded
}

/// Whether a conditional update calls for a discovery report: it succeeded
/// and reached the threshold.
pub fn should_notify(updated: bool, score: u8) -> (r: bool)
    ensures
        r == (updated && score >= DISCOVERY_THRESHOLD),
{
    updated && score >= DISCOVERY_THRESHOLD
}

/// The report owed for the outcome of a conditional update: one exactly
/// when `should_notify(updated, score)`, carrying the new and the old key
/// pairs.
pub fn discovery(
    updated: bool,
    target_id: &str,
    score: u8,
    twin_address: &str,
    twin_private_key: &str,
    old_twin_address: Option<String>,
    old_twin_private_key: Option<String>,
) -> (r: Option<DiscoveryPayload>)
    ensures
        r is Some <==> (updated && score >= DISCOVERY_THRESHOLD),
        r matches Some(p) ==> {
            &&& p.target_id@ == target_id@
            &&& p.score == score
            &&& p.twin_address@ == twin_address@
            &&& p.twin_private_key@ == twin_private_key@
            &&& p.old_twin_address == old_twin_address
            &&& p.old_twin_private_key == old_twin_private_key
        },
{
    if should_notify(updated, score) {
        Some(
            DiscoveryPayload {
                target_id: target_id.to_owned(),
                score,
                twin_address: twin_address.to_owned(),
                twin_private_key: twin_private_key.to_owned(),
                old_twin_address,
                old_twin_private_key,
            },
        )
    } else {
        None
    }
}

/// Score `candidate` against every cached target and list the targets it
/// beats. Fails when the candidate or a pattern is too short to score.
pub fn find_improvements(targets: &Vec<Model>, candidate: &str) -> (r: Result<
    Vec<Improvement>,
    ScoreError,
>)
    ensures
        candidate.spec_bytes().len() < 8 <==> r == Err::<Vec<Improvement>, ScoreError>(
            ScoreError::CandidateTooShort,
        ),
        candidate.spec_bytes().len() >= 8 && !all_scorable(targets@, candidate.spec_bytes()) <==> r
            == Err::<Vec<Improvement>, ScoreError>(ScoreError::PatternTooShort),
        r is Ok <==> candidate.spec_bytes().len() >= 8 && all_scorable(
            targets@,
            candidate.spec_bytes(),
        ),
        r matches Ok(v) ==> v@ == improvements_spec(
            targets@,
            candidate.spec_bytes(),
            targets@.len(),
        ),
{
    if candidate.as_bytes().len() < 8 {
        return Err(ScoreError::CandidateTooShort);
    }
    let ghost cb = candidate.spec_bytes();
    let mut found: Vec<Improvement> = Vec::new();
    let mut i: usize = 0;
    while i < targets.len()
        invariant
            i <= targets@.len(),
            cb == candidate.spec_bytes(),
            cb.len() >= 8,
            forall|k: int| 0 <= k < i ==> scorable(pattern_bytes(#[trigger] targets@[k]), cb),
            found@ == improvements_spec(targets@, cb, i as nat),
        decreases targets@.len() - i,
    {
        let t = &targets[i];
        proof {
            lemma_default_weights_permutation();
            lemma_score_at_most_max(default_weights(), match_vector(pattern_bytes(*t), cb));
        }
        match checked_score(t.target.as_str(), candidate) {
            Err(_) => {
                return Err(ScoreError::PatternTooShort);
            },
            Ok(s) => {
                if improves(s, t.score) {
                    found.push(Improvement { index: i, score: s });
                }
            },
        }
        i = i + 1;
    }
    Ok(found)
}

impl Worker {
    /// A fresh worker: it starts by refreshing, at sequence number 0.
    pub fn new(thread_id: u32) -> (w: Worker)
        ensures
            w.thread_id == thread_id,
            w.nonce == 0,
            w.batch_end == 0,
            w.target_count == 0,
            w.targets@.len() == 0,
            w.phase == Phase::Refreshing,
    {
        Worker {
            thread_id,
            nonce: 0,
            batch_end: 0,
            target_count: 0,
            targets: Vec::new(),
            phase: Phase::Refreshing,
        }
    }

    /// Take the result of fetching the active targets (`None` when the
    /// store failed). With no target the worker idles; otherwise it caches
    /// them and starts a batch at its current sequence number.
    pub fn refresh(&mut self, fetched: Option<Vec<Model>>) -> (r: RefreshOutcome)
        ensures
            final(self).thread_id == old(self).thread_id,
            final(self).nonce == old(self).nonce,
            match fetched {
                Some(ts) if ts@.len() > 0 => {
                    &&& r == RefreshOutcome::Search {
                        targets_changed: old(self).target_count != ts@.len(),
                    }
                    &&& final(self).phase == Phase::Searching
                    &&& final(self).targets@ == ts@
                    &&& final(self).target_count == ts@.len()
                    &&& final(self).batch_end == batch_end_after(old(self).nonce)
                },
                _ => {
                    &&& r == RefreshOutcome::Idle
                    &&& final(self).phase == Phase::Idling
                    &&& final(self).targets@.len() == 0
                    &&& final(self).target_count == old(self).target_count
                    &&& final(self).batch_end == old(self).batch_end
                },
            },
    {
        match fetched {
            Some(ts) if ts.len() > 0 => {
                let n = ts.len() as u64;
                let changed = self.target_count != n;
                self.target_count = n;
                self.targets = ts;
                self.batch_end = if self.nonce > u64::MAX - BATCH_SIZE {
                    u64::MAX
                } else {
                    self.nonce + BATCH_SIZE
                };
                self.phase = Phase::Searching;
                RefreshOutcome::Search { targets_changed: changed }
            },
            _ => {
                self.targets = Vec::new();
                self.phase = Phase::Idling;
                RefreshOutcome::Idle
            },
        }
    }

    /// The idle wait is over: an idling worker refreshes again. In any other
    /// phase nothing changes.
    pub fn idle_elapsed(&mut self)
        ensures
            old(self).phase == Phase::Idling ==> final(self).phase == Phase::Refreshing,
            old(self).phase != Phase::Idling ==> final(self).phase == old(self).phase,
            final(self).thread_id == old(self).thread_id,
            final(self).nonce == old(self).nonce,
            final(self).batch_end == old(self).batch_end,
            final(self).target_count == old(self).target_count,
            final(self).targets@ == old(self).targets@,
    {
        if self.phase == Phase::Idling {
            self.phase = Phase::Refreshing;
        }
    }

    /// The next sequence number to generate, while searching and inside the
    /// batch. At the end of the batch the worker turns to refreshing and
    /// returns `None`; outside the search it returns `None` and changes
    /// nothing.
    pub fn next_sequence(&mut self) -> (r: Option<u64>)
        ensures
            final(self).thread_id == old(self).thread_id,
            final(self).batch_end == old(self).batch_end,
            final(self).target_count == old(self).target_count,
            final(self).targets@ == old(self).targets@,
            old(self).phase == Phase::Searching && old(self).nonce < old(self).batch_end ==> {
                &&& r == Some(old(self).nonce)
                &&& final(self).nonce == old(self).nonce + 1
                &&& final(self).phase == Phase::Searching
            },
            old(self).phase == Phase::Searching && old(self).nonce >= old(self).batch_end ==> {
                &&& r is None
                &&& final(self).nonce == old(self).nonce
                &&& final(self).phase == Phase::Refreshing
            },
            old(self).phase != Phase::Searching ==> {
                &&& r is None
                &&& final(self).nonce == old(self).nonce
                &&& final(self).phase == old(self).phase
            },
    {
        if self.phase != Phase::Searching {
            None
        } else if self.nonce < self.batch_end {
            let n = self.nonce;
            self.nonce = n + 1;
            Some(n)
        } else {
            self.phase = Phase::Refreshing;
            None
        }
    }
}

} // verus!
