//! Solution verification: a pure re-check of a claimed solution against its
//! challenge, with no search and no side effect.

use crate::challenge::IronShieldChallenge;
use crate::predicate::DifficultyPredicate;
use crate::response::IronShieldChallengeResponse;
use vstd::prelude::*;

verus! {

/// Byte-for-byte equality of two slices.
fn bytes_equal(a: &[u8], b: &[u8]) -> (r: bool)
    ensures
        r == (a@ == b@),
{
    let n = a.len();
    if n != b.len() {
        return false;
    }
    let mut i: usize = 0;
    while i < n
        invariant
            i <= n,
            n == a@.len(),
            n == b@.len(),
            forall|j: int| 0 <= j < i ==> a@[j] == b@[j],
        decreases n - i,
    {
        if a[i] != b[i] {
            return false;
        }
        i = i + 1;
    }
    proof {
        assert(a@ =~= b@);
    }
    true
}

/// Whether a response is accepted for a challenge at time `now`: the
/// signature copy matches, the challenge has not expired, and the claimed
/// solution passes the difficulty predicate.
pub open spec fn accepts<P: DifficultyPredicate>(
    pred: P,
    response: crate::response::ResponseView,
    challenge: crate::challenge::ChallengeView,
    now: i64,
) -> bool {
    &&& response.challenge_signature == challenge.challenge_signature
    &&& now < challenge.expiration_time
    &&& pred.test_spec(challenge.challenge_param, response.solution)
}

/// Re-checks a claimed solution without searching.  Accepts exactly when the
/// response's signature copy matches the challenge's, `now` is still inside
/// the validity window, and the solution passes the predicate; an expired
/// challenge is rejected whatever the solution.  A malformed response simply
/// fails the comparison and is rejected, never an error.
pub fn verify_response<P: DifficultyPredicate>(
    pred: &P,
    response: &IronShieldChallengeResponse,
    challenge: &IronShieldChallenge,
    now: i64,
) -> (r: bool)
    requires
        challenge.well_formed(),
    ensures
        r == accepts(*pred, response@, challenge@, now),
        now >= challenge@.expiration_time ==> r == false,
{
    if !bytes_equal(
        response.challenge_signature.as_slice(),
        challenge.challenge_signature.as_slice(),
    ) {
        return false;
    }
    if now >= challenge.expiration_time {
        return false;
    }
    pred.test(challenge.challenge_param.as_slice(), response.solution)
}

} // verus!
