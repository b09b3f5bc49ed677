//! Proof-of-work challenge protocol core: challenge/response records, their
//! canonical wire encoding, a stride-partitioned solution search, and a cheap
//! verifier that re-checks a claimed solution without searching.

pub mod base64url;
pub mod challenge;
pub mod compat;
pub mod errors;
pub mod hexstr;
pub mod predicate;
pub mod response;
pub mod search;
pub mod strconv;
pub mod verify;
pub mod wire;

use vstd::prelude::*;

verus! {

/// Width in bytes of a challenge's difficulty parameter.
pub const CHALLENGE_PARAM_LEN: usize = 32;

/// Width in bytes of an issuer's public key.
pub const PUBLIC_KEY_LEN: usize = 32;

/// Width in bytes of a challenge signature.
pub const SIGNATURE_LEN: usize = 64;

} // verus!
