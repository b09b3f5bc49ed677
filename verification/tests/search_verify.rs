use ironshield_pow::challenge::IronShieldChallenge;
use ironshield_pow::errors::SearchError;
use ironshield_pow::predicate::{DifficultyPredicate, FixedTargetPredicate, FnvPredicate};
use ironshield_pow::response::IronShieldChallengeResponse;
use ironshield_pow::search::{
    solve_challenge, solve_challenge_with_progress, worker_scan, CountingObserver,
    ProgressObserver, SearchConfig,
};
use ironshield_pow::verify::verify_response;

fn zero_challenge() -> IronShieldChallenge {
    IronShieldChallenge::new(
        String::new(),
        0,
        1_000_000_000_000,
        String::from("example"),
        vec![0u8; 32],
        vec![0u8; 32],
        vec![0u8; 64],
    )
    .unwrap()
}

#[test]
fn concrete_scenario_smallest_candidate_wins() {
    // Difficulty: the low 3 bits of the deterministic hash must be zero.
    let pred = FnvPredicate { mask: 0x7 };
    let challenge = zero_challenge();
    let config = SearchConfig::with_workers(1);
    let response = solve_challenge(&pred, &challenge, &config, 0).unwrap();
    // The accepted nonce is the smallest non-negative passing candidate.
    let param = vec![0u8; 32];
    let mut smallest: i64 = 0;
    while !pred.test(&param, smallest) {
        smallest += 1;
    }
    assert_eq!(response.solution(), smallest);
    assert!(verify_response(&pred, &response, &challenge, 0));
    // Flipping one signature byte must break verification.
    let mut tampered_sig = response.challenge_signature.clone();
    tampered_sig[0] ^= 1;
    let tampered = IronShieldChallengeResponse::new(tampered_sig, response.solution()).unwrap();
    assert!(!verify_response(&pred, &tampered, &challenge, 0));
}

#[test]
fn single_worker_search_is_deterministic() {
    let pred = FnvPredicate { mask: 0x1f };
    let challenge = zero_challenge();
    let config = SearchConfig::with_workers(1);
    let first = solve_challenge(&pred, &challenge, &config, 0).unwrap();
    let second = solve_challenge(&pred, &challenge, &config, 0).unwrap();
    assert_eq!(first.solution(), second.solution());
    assert_eq!(first.challenge_signature, second.challenge_signature);
}

#[test]
fn multi_worker_search_finds_the_one_solution() {
    // Exactly one nonce in [0, 1000) passes; the search must return it.
    let pred = FixedTargetPredicate { target: 707 };
    let challenge = zero_challenge();
    let config = SearchConfig {
        start_offset: 0,
        stride: 4,
        worker_count: 4,
        max_candidates: 1000,
    };
    let response = solve_challenge(&pred, &challenge, &config, 0).unwrap();
    assert_eq!(response.solution(), 707);
    assert!(verify_response(&pred, &response, &challenge, 0));
}

#[test]
fn worker_scan_covers_only_its_own_subsequence() {
    let param = vec![0u8; 32];
    // 707 = 0 + 3 + 176 * 4: only worker 3 of 4 may find it.
    for worker in 0..4u32 {
        let found = worker_scan(
            &FixedTargetPredicate { target: 707 },
            &param,
            0,
            worker,
            4,
            0,
            250,
        );
        if worker == 3 {
            assert_eq!(found, Some(707));
        } else {
            assert_eq!(found, None);
        }
    }
    // A later batch of the owning worker still finds it; an earlier one ends
    // empty, so a cancelled worker stops after at most one bounded batch.
    let pred = FixedTargetPredicate { target: 707 };
    assert_eq!(worker_scan(&pred, &param, 0, 3, 4, 170, 10), Some(707));
    assert_eq!(worker_scan(&pred, &param, 0, 3, 4, 0, 170), None);
}

#[test]
fn stride_partition_covers_every_nonce_once() {
    let param = vec![0u8; 32];
    let stride = 3u32;
    for nonce in 10..40i64 {
        let mut owners = 0;
        for worker in 0..stride {
            let pred = FixedTargetPredicate { target: nonce };
            if worker_scan(&pred, &param, 10, worker, stride, 0, 10) == Some(nonce) {
                owners += 1;
            }
        }
        assert_eq!(owners, 1, "nonce {} must belong to exactly one worker", nonce);
    }
}

#[test]
fn search_rejects_expired_challenge() {
    // The predicate would accept the very first candidate, but the window is
    // already closed.
    let pred = FixedTargetPredicate { target: 0 };
    let challenge = zero_challenge();
    let config = SearchConfig::with_workers(1);
    let at_expiry = solve_challenge(&pred, &challenge, &config, 1_000_000_000_000);
    assert_eq!(at_expiry.err(), Some(SearchError::ChallengeExpired));
    let after_expiry = solve_challenge(&pred, &challenge, &config, i64::MAX);
    assert_eq!(after_expiry.err(), Some(SearchError::ChallengeExpired));
}

#[test]
fn search_exhausts_bounded_range() {
    let pred = FixedTargetPredicate { target: 5000 };
    let challenge = zero_challenge();
    let config = SearchConfig {
        start_offset: 0,
        stride: 1,
        worker_count: 1,
        max_candidates: 100,
    };
    let r = solve_challenge(&pred, &challenge, &config, 0);
    assert_eq!(r.err(), Some(SearchError::SearchExhausted));
}

#[test]
fn search_honours_start_offset() {
    // The smallest passing candidate below the offset is skipped.
    let pred = FixedTargetPredicate { target: 20 };
    let challenge = zero_challenge();
    let missed = SearchConfig {
        start_offset: 21,
        stride: 1,
        worker_count: 1,
        max_candidates: 100,
    };
    assert_eq!(
        solve_challenge(&pred, &challenge, &missed, 0).err(),
        Some(SearchError::SearchExhausted)
    );
    let covered = SearchConfig {
        start_offset: 15,
        stride: 1,
        worker_count: 1,
        max_candidates: 100,
    };
    assert_eq!(
        solve_challenge(&pred, &challenge, &covered, 0).unwrap().solution(),
        20
    );
}

#[test]
fn verifier_rejects_expired_even_with_valid_solution() {
    let pred = FixedTargetPredicate { target: 9 };
    let challenge = zero_challenge();
    let response = IronShieldChallengeResponse::new(vec![0u8; 64], 9).unwrap();
    assert!(verify_response(&pred, &response, &challenge, 0));
    assert!(!verify_response(&pred, &response, &challenge, 1_000_000_000_000));
    assert!(!verify_response(&pred, &response, &challenge, i64::MAX));
}

#[test]
fn verifier_soundness_cases() {
    let pred = FixedTargetPredicate { target: 9 };
    let challenge = zero_challenge();
    // Wrong solution.
    let wrong = IronShieldChallengeResponse::new(vec![0u8; 64], 8).unwrap();
    assert!(!verify_response(&pred, &wrong, &challenge, 0));
    // Wrong signature copy, even of the wrong length.
    let bad_sig = IronShieldChallengeResponse {
        challenge_signature: vec![0u8; 63],
        solution: 9,
    };
    assert!(!verify_response(&pred, &bad_sig, &challenge, 0));
    // Everything right.
    let good = IronShieldChallengeResponse::new(vec![0u8; 64], 9).unwrap();
    assert!(verify_response(&pred, &good, &challenge, 0));
}

#[test]
fn progress_reports_grow_and_do_not_change_the_outcome() {
    let pred = FixedTargetPredicate { target: 500 };
    let challenge = zero_challenge();
    let config = SearchConfig::with_workers(1);
    let mut observer = CountingObserver { tested: 0 };
    let with_progress =
        solve_challenge_with_progress(&pred, &challenge, &config, 0, &mut observer, 100).unwrap();
    assert_eq!(with_progress.solution(), 500);
    // Reports came at 0, 100, ..., 500; the observer keeps the largest.
    assert_eq!(observer.tested, 500);
    // A stale report is tolerated and dropped.
    observer.report(3);
    assert_eq!(observer.tested, 500);
    let without = solve_challenge(&pred, &challenge, &config, 0).unwrap();
    assert_eq!(without.solution(), with_progress.solution());
}

#[test]
fn default_config_is_single_worker() {
    let d = SearchConfig::default();
    assert_eq!(d.worker_count, 1);
    assert_eq!(d.stride, 1);
    assert_eq!(d.start_offset, 0);
    let lifted = SearchConfig::with_workers(0);
    assert_eq!(lifted.worker_count, 1);
    let many = SearchConfig::with_workers(8);
    assert_eq!(many.worker_count, 8);
    assert_eq!(many.stride, 8);
}
