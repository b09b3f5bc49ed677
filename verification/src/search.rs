//! The solution search.  The nonce space from `start_offset` upward is split
//! by a stride scheme: worker `i` owns the candidates
//! `start_offset + i + k * stride` for `k = 0, 1, 2, ...`, so the workers
//! interleave with no overlap and no gap.  Scanning the candidates in
//! ascending order visits the partition round-robin, one candidate per worker
//! per round; `solve_challenge` performs exactly that scan, so its result is
//! the least passing candidate in range, however many workers the
//! configuration names.  A concurrent runtime instead gives each worker
//! bounded batches of its own subsequence through `worker_scan` and stops all
//! workers when one of them, or the clock, settles the outcome.

use crate::challenge::IronShieldChallenge;
use crate::errors::SearchError;
use crate::predicate::DifficultyPredicate;
use crate::response::IronShieldChallengeResponse;
use vstd::arithmetic::div_mod::{
    lemma_div_pos_is_pos, lemma_fundamental_div_mod, lemma_fundamental_div_mod_converse,
    lemma_mod_pos_bound,
};
use vstd::arithmetic::mul::lemma_mul_inequality;
use vstd::prelude::*;
use vstd::slice::slice_to_vec;

verus! {

/// How many candidates a search visits before giving up with
/// `SearchExhausted`, when the configuration does not say otherwise.
pub const DEFAULT_MAX_CANDIDATES: u64 = 0x1_0000_0000;

/// Tuning of a search: where the scan starts, how the nonce space is split,
/// and where it gives up.
#[derive(Clone, Copy, Debug, PartialEq, Eq, Structural)]
pub struct SearchConfig {
    /// First candidate of the scanned range; 0 unless a caller resumes an
    /// earlier search.
    pub start_offset: i64,
    /// Distance between two candidates of one worker; equal to the worker
    /// count, so that the workers tile the range.
    pub stride: u32,
    /// Number of workers the range is split across; at least 1.
    pub worker_count: u32,
    /// Size of the scanned range; the search fails with `SearchExhausted`
    /// beyond it rather than running forever.
    pub max_candidates: u64,
}

impl SearchConfig {
    /// A usable configuration: at least one worker, a stride that matches the
    /// worker count, a non-negative range that stays within `i64`.
    pub open spec fn well_formed(&self) -> bool {
        &&& self.worker_count >= 1
        &&& self.stride == self.worker_count
        &&& self.start_offset >= 0
        &&& self.start_offset + self.max_candidates <= i64::MAX
    }

    /// The configuration for `worker_count` workers (0 is lifted to 1), with
    /// the documented defaults: scan from 0, give up after
    /// `DEFAULT_MAX_CANDIDATES` candidates.
    pub fn with_workers(worker_count: u32) -> (c: Self)
        ensures
            c.well_formed(),
            c.worker_count == (if worker_count >= 1 { worker_count } else { 1u32 }),
            c.start_offset == 0,
            c.max_candidates == DEFAULT_MAX_CANDIDATES,
    {
        let w: u32 = if worker_count >= 1 { worker_count } else { 1 };
        SearchConfig {
            start_offset: 0,
            stride: w,
            worker_count: w,
            max_candidates: DEFAULT_MAX_CANDIDATES,
        }
    }
}

impl Default for SearchConfig {
    /// The single-worker configuration: a sequential scan from 0.
    fn default() -> (c: Self)
        ensures
            c.well_formed(),
            c == (SearchConfig {
                start_offset: 0,
                stride: 1,
                worker_count: 1,
                max_candidates: DEFAULT_MAX_CANDIDATES,
            }),
    {
        SearchConfig::with_workers(1)
    }
}

/// An observer of search progress.  Workers hand it a monotonically
/// increasing count of candidates tested — not test results — on a best-effort
/// basis: a dropped, delayed or repeated report is not an error, and an
/// implementation must not block the search on a slow consumer.
pub trait ProgressObserver {
    /// Receives the number of candidates tested so far.
    fn report(&mut self, tested: u64);
}

/// The observer that discards every report.
pub struct NullObserver;

impl ProgressObserver for NullObserver {
    fn report(&mut self, _tested: u64) {
    }
}

/// An observer that keeps the largest count seen, tolerating reports that
/// arrive late or out of order.
pub struct CountingObserver {
    /// The largest count reported so far.
    pub tested: u64,
}

impl ProgressObserver for CountingObserver {
    fn report(&mut self, tested: u64)
        ensures
            final(self).tested == (if tested > old(self).tested {
                tested
            } else {
                old(self).tested
            }),
    {
        if tested > self.tested {
            self.tested = tested;
        }
    }
}

/// Whether `n` lies in the candidate range of `cfg`.
pub open spec fn in_range(cfg: SearchConfig, n: i64) -> bool {
    cfg.start_offset <= n < cfg.start_offset + cfg.max_candidates
}

/// Whether `n` is the least candidate in `cfg`'s range passing the predicate.
pub open spec fn is_first_solution<P: DifficultyPredicate>(
    pred: P,
    param: Seq<u8>,
    cfg: SearchConfig,
    n: i64,
) -> bool {
    &&& in_range(cfg, n)
    &&& pred.test_spec(param, n)
    &&& forall|m: i64| cfg.start_offset <= m < n ==> !pred.test_spec(param, m)
}

/// Whether no candidate in `cfg`'s range passes the predicate.
pub open spec fn no_solution_in_range<P: DifficultyPredicate>(
    pred: P,
    param: Seq<u8>,
    cfg: SearchConfig,
) -> bool {
    forall|m: i64| in_range(cfg, m) ==> !pred.test_spec(param, m)
}

/// The candidate worker `worker` visits at round `k` under the stride scheme.
pub open spec fn worker_candidate(start: int, worker: int, stride: int, k: int) -> int {
    start + worker + k * stride
}

/// Stride completeness: every nonce at or above `start` belongs to exactly
/// one worker of the partition, at exactly one round — worker
/// `(n - start) % stride`, round `(n - start) / stride`.
pub proof fn lemma_stride_partition(start: int, stride: int, n: int)
    requires
        stride >= 1,
        n >= start,
    ensures
        0 <= (n - start) % stride < stride,
        (n - start) / stride >= 0,
        n == worker_candidate(start, (n - start) % stride, stride, (n - start) / stride),
        forall|i: int, k: int|
            0 <= i < stride && k >= 0 && n == worker_candidate(start, i, stride, k) ==> i == (n
                - start) % stride && k == (n - start) / stride,
{
    let q = (n - start) / stride;
    let r = (n - start) % stride;
    lemma_fundamental_div_mod(n - start, stride);
    lemma_mod_pos_bound(n - start, stride);
    lemma_div_pos_is_pos(n - start, stride);
    assert(n - start == stride * q + r);
    assert(stride * q == q * stride) by (nonlinear_arith);
    assert forall|i: int, k: int|
        0 <= i < stride && k >= 0 && n == worker_candidate(start, i, stride, k) implies i == (n
        - start) % stride && k == (n - start) / stride by {
        lemma_fundamental_div_mod_converse(n - start, stride, k, i);
    }
}

/// Stride completeness over a block: after `rounds` full rounds the workers
/// of the partition have together covered exactly the contiguous range
/// `[start, start + rounds * stride)` — every nonce in it visited by one
/// worker at one round, and nothing outside it below `start` visited at all.
pub proof fn lemma_stride_completeness(start: int, stride: int, rounds: int, n: int)
    requires
        stride >= 1,
        rounds >= 0,
        start <= n < start + rounds * stride,
    ensures
        0 <= (n - start) % stride < stride,
        0 <= (n - start) / stride < rounds,
        n == worker_candidate(start, (n - start) % stride, stride, (n - start) / stride),
        forall|i: int, k: int|
            0 <= i < stride && k >= 0 && n == worker_candidate(start, i, stride, k) ==> i == (n
                - start) % stride && k == (n - start) / stride,
{
    lemma_stride_partition(start, stride, n);
    let q = (n - start) / stride;
    if q >= rounds {
        lemma_mul_inequality(rounds, q, stride);
        assert(rounds * stride <= q * stride);
        lemma_fundamental_div_mod(n - start, stride);
        lemma_mod_pos_bound(n - start, stride);
        assert(stride * q == q * stride) by (nonlinear_arith);
        assert(false);
    }
}

/// Determinism: the search outcome is pinned by the predicate and the
/// configuration alone, so two searches over the same challenge agree.
pub proof fn lemma_search_deterministic<P: DifficultyPredicate>(
    pred: P,
    param: Seq<u8>,
    cfg: SearchConfig,
    n1: i64,
    n2: i64,
)
    requires
        is_first_solution(pred, param, cfg, n1),
        is_first_solution(pred, param, cfg, n2),
    ensures
        n1 == n2,
{
    if n1 < n2 {
        assert(!pred.test_spec(param, n1));
    } else if n2 < n1 {
        assert(!pred.test_spec(param, n2));
    }
}

/// Finds the least candidate in the configured range that passes the
/// predicate and binds it to the challenge, or reports why there is none.
/// `now` is the caller's clock reading: a challenge already expired is not
/// searched at all.  A concurrent runtime re-reads the clock and re-checks
/// expiry between the bounded batches it hands to `worker_scan`.
pub fn solve_challenge<P: DifficultyPredicate>(
    pred: &P,
    challenge: &IronShieldChallenge,
    config: &SearchConfig,
    now: i64,
) -> (r: Result<IronShieldChallengeResponse, SearchError>)
    requires
        challenge.well_formed(),
        config.well_formed(),
    ensures
        now >= challenge@.expiration_time ==> r == Err::<
            IronShieldChallengeResponse,
            SearchError,
        >(SearchError::ChallengeExpired),
        now < challenge@.expiration_time ==> match r {
            Ok(resp) => resp@.challenge_signature == challenge@.challenge_signature
                && resp.well_formed() && is_first_solution(
                *pred,
                challenge@.challenge_param,
                *config,
                resp@.solution,
            ),
            Err(e) => e == SearchError::SearchExhausted && no_solution_in_range(
                *pred,
                challenge@.challenge_param,
                *config,
            ),
        },
{
    let mut observer = NullObserver;
    solve_challenge_with_progress(pred, challenge, config, now, &mut observer, 0)
}

/// `solve_challenge`, reporting progress: every `report_every` candidates
/// (0 reports nothing) the observer hears how many have been tested.  The
/// reports never change the outcome.
pub fn solve_challenge_with_progress<P: DifficultyPredicate, O: ProgressObserver>(
    pred: &P,
    challenge: &IronShieldChallenge,
    config: &SearchConfig,
    now: i64,
    observer: &mut O,
    report_every: u64,
) -> (r: Result<IronShieldChallengeResponse, SearchError>)
    requires
        challenge.well_formed(),
        config.well_formed(),
    ensures
        now >= challenge@.expiration_time ==> r == Err::<
            IronShieldChallengeResponse,
            SearchError,
        >(SearchError::ChallengeExpired),
        now < challenge@.expiration_time ==> match r {
            Ok(resp) => resp@.challenge_signature == challenge@.challenge_signature
                && resp.well_formed() && is_first_solution(
                *pred,
                challenge@.challenge_param,
                *config,
                resp@.solution,
            ),
            Err(e) => e == SearchError::SearchExhausted && no_solution_in_range(
                *pred,
                challenge@.challenge_param,
                *config,
            ),
        },
{
    if now >= challenge.expiration_time {
        return Err(SearchError::ChallengeExpired);
    }
    let start = config.start_offset;
    let bound = config.max_candidates;
    let mut j: u64 = 0;
    while j < bound
        invariant
            challenge.well_formed(),
            config.well_formed(),
            now < challenge@.expiration_time,
            start == config.start_offset,
            bound == config.max_candidates,
            j <= bound,
            forall|m: i64|
                start <= m < start + j ==> !pred.test_spec(challenge@.challenge_param, m),
        decreases bound - j,
    {
        if report_every != 0 && j % report_every == 0 {
            observer.report(j);
        }
        let candidate = start + (j as i64);
        if pred.test(challenge.challenge_param.as_slice(), candidate) {
            let signature = slice_to_vec(challenge.challenge_signature.as_slice());
            return Ok(IronShieldChallengeResponse { challenge_signature: signature, solution: candidate });
        }
        j = j + 1;
    }
    Err(SearchError::SearchExhausted)
}

/// Scans one worker's subsequence of the stride partition for `round_count`
/// rounds starting at `round_start`, and returns the first passing candidate
/// in it, if any.  A concurrent runtime calls this in bounded batches per
/// worker, checking a shared cancellation signal and the clock between
/// batches, so that a winning sibling or an expired challenge stops every
/// worker within one batch.
pub fn worker_scan<P: DifficultyPredicate>(
    pred: &P,
    param: &[u8],
    start_offset: i64,
    worker_index: u32,
    stride: u32,
    round_start: u64,
    round_count: u64,
) -> (r: Option<i64>)
    requires
        param@.len() == crate::CHALLENGE_PARAM_LEN,
        stride >= 1,
        worker_index < stride,
        start_offset >= 0,
        start_offset + worker_index + (round_start + round_count) * stride <= i64::MAX,
    ensures
        r matches Some(c) ==> {
            &&& exists|k: int|
                round_start <= k < round_start + round_count && c == worker_candidate(
                    start_offset as int,
                    worker_index as int,
                    stride as int,
                    k,
                )
            &&& pred.test_spec(param@, c)
            &&& forall|k: int|
                round_start <= k && worker_candidate(
                    start_offset as int,
                    worker_index as int,
                    stride as int,
                    k,
                ) < c ==> !pred.test_spec(
                    param@,
                    worker_candidate(
                        start_offset as int,
                        worker_index as int,
                        stride as int,
                        k,
                    ) as i64,
                )
        },
        r is None ==> forall|k: int|
            round_start <= k < round_start + round_count ==> !pred.test_spec(
                param@,
                worker_candidate(start_offset as int, worker_index as int, stride as int, k) as i64,
            ),
{
    let mut k: u64 = round_start;
    proof {
        assert(round_start + round_count <= (round_start + round_count) * stride)
            by (nonlinear_arith)
            requires
                stride >= 1,
                round_start + round_count >= 0,
        ;
    }
    let bound = round_start + round_count;
    while k < bound
        invariant
            round_start <= k <= bound,
            bound == round_start + round_count,
            param@.len() == crate::CHALLENGE_PARAM_LEN,
            stride >= 1,
            worker_index < stride,
            start_offset >= 0,
            start_offset + worker_index + (round_start + round_count) * stride <= i64::MAX,
            forall|k2: int|
                round_start <= k2 < k ==> !pred.test_spec(
                    param@,
                    worker_candidate(
                        start_offset as int,
                        worker_index as int,
                        stride as int,
                        k2,
                    ) as i64,
                ),
        decreases bound - k,
    {
        proof {
            assert(worker_index + k * stride <= worker_index + (round_start + round_count)
                * stride) by (nonlinear_arith)
                requires
                    k < round_start + round_count,
                    stride >= 1,
                    k >= 0,
            ;
        }
        let offset = (worker_index as u64) + k * (stride as u64);
        let candidate = start_offset + (offset as i64);
        proof {
            assert(candidate == worker_candidate(
                start_offset as int,
                worker_index as int,
                stride as int,
                k as int,
            ));
        }
        if pred.test(param, candidate) {
            proof {
                assert forall|k2: int|
                    round_start <= k2 && worker_candidate(
                        start_offset as int,
                        worker_index as int,
                        stride as int,
                        k2,
                    ) < candidate implies !pred.test_spec(
                    param@,
                    worker_candidate(
                        start_offset as int,
                        worker_index as int,
                        stride as int,
                        k2,
                    ) as i64,
                ) by {
                    if k2 >= k {
                        lemma_mul_inequality(k as int, k2, stride as int);
                    }
                }
            }
            return Some(candidate);
        }
        k = k + 1;
    }
    None
}

} // verus!
