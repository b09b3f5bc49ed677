//! The difficulty predicate: the opaque test a candidate nonce must pass.
//! Any pure, deterministic predicate over `(challenge_param, candidate)` can
//! stand behind the trait; the search and the verifier only rely on its
//! stated meaning.

use crate::wire::i64_le_bytes;
use crate::CHALLENGE_PARAM_LEN;
use vstd::prelude::*;
use vstd::slice::slice_to_vec;

verus! {

/// A pure, deterministic test over a challenge's difficulty anchor and one
/// candidate nonce.  Implementations state their meaning as `test_spec` and
/// prove `test` computes it.
pub trait DifficultyPredicate: Sized {
    /// The predicate's mathematical meaning.
    spec fn test_spec(&self, param: Seq<u8>, candidate: i64) -> bool;

    /// Tests one candidate.
    fn test(&self, param: &[u8], candidate: i64) -> (r: bool)
        requires
            param@.len() == CHALLENGE_PARAM_LEN,
        ensures
            r == self.test_spec(param@, candidate),
    ;
}

/// One step of the 64-bit FNV-1a hash: fold one byte in, then multiply by the
/// FNV prime modulo 2^64.
pub open spec fn fnv1a_step(h: u64, b: u8) -> u64 {
    (((h ^ (b as u64)) * 0x100000001b3) % 0x1_0000_0000_0000_0000) as u64
}

/// The 64-bit FNV-1a hash of a byte sequence.
pub open spec fn fnv1a_hash(s: Seq<u8>) -> u64
    decreases s.len(),
{
    if s.len() == 0 {
        0xcbf29ce484222325u64
    } else {
        fnv1a_step(fnv1a_hash(s.drop_last()), s.last())
    }
}

/// Computes the 64-bit FNV-1a hash of a byte slice.
pub fn fnv1a(s: &[u8]) -> (h: u64)
    ensures
        h == fnv1a_hash(s@),
{
    let n = s.len();
    let mut h: u64 = 0xcbf29ce484222325;
    let mut i: usize = 0;
    proof {
        assert(s@.take(0) =~= Seq::<u8>::empty());
    }
    while i < n
        invariant
            i <= n,
            n == s@.len(),
            h == fnv1a_hash(s@.take(i as int)),
        decreases n - i,
    {
        let b = s[i];
        h = (h ^ (b as u64)).wrapping_mul(0x100000001b3);
        proof {
            let t = s@.take(i + 1);
            assert(t.drop_last() =~= s@.take(i as int));
            assert(t.last() == b);
        }
        i = i + 1;
    }
    proof {
        assert(s@.take(n as int) =~= s@);
    }
    h
}

/// The difficulty predicate used by this library's own search: a candidate
/// passes when the FNV-1a hash of the difficulty anchor followed by the
/// candidate's 8 little-endian bytes has all bits of `mask` clear.  A larger
/// mask means a rarer solution; `mask == 0` accepts every candidate.
#[derive(Clone, Copy, Debug, PartialEq, Eq, Structural)]
pub struct FnvPredicate {
    /// The hash bits that must be zero for a candidate to pass.
    pub mask: u64,
}

/// The hash input for a candidate under `FnvPredicate`.
pub open spec fn fnv_input(param: Seq<u8>, candidate: i64) -> Seq<u8> {
    param + i64_le_bytes(candidate)
}

impl DifficultyPredicate for FnvPredicate {
    open spec fn test_spec(&self, param: Seq<u8>, candidate: i64) -> bool {
        fnv1a_hash(fnv_input(param, candidate)) & self.mask == 0
    }

    fn test(&self, param: &[u8], candidate: i64) -> (r: bool)
        ensures
            r == self.test_spec(param@, candidate),
    {
        let mut buf = slice_to_vec(param);
        crate::wire::push_i64_le(&mut buf, candidate);
        let h = fnv1a(buf.as_slice());
        h & self.mask == 0
    }
}

/// A predicate satisfied by exactly one nonce, whatever the difficulty
/// anchor: a known answer for calibrating and exercising the search.
#[derive(Clone, Copy, Debug, PartialEq, Eq, Structural)]
pub struct FixedTargetPredicate {
    /// The single passing candidate.
    pub target: i64,
}

impl DifficultyPredicate for FixedTargetPredicate {
    open spec fn test_spec(&self, param: Seq<u8>, candidate: i64) -> bool {
        candidate == self.target
    }

    fn test(&self, param: &[u8], candidate: i64) -> (r: bool)
        ensures
            r == self.test_spec(param@, candidate),
    {
        candidate == self.target
    }
}

} // verus!
