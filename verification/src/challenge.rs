//! The challenge record: an immutable, signed, time-bounded proof-of-work
//! task, with its canonical wire encoding and Base64URL header form.
//!
//! Wire layout, in order: `random_nonce` length (4 bytes) and UTF-8 bytes,
//! `created_time` (8 bytes), `expiration_time` (8 bytes), `website_id` length
//! (4 bytes) and UTF-8 bytes, `challenge_param` (32 bytes), `public_key`
//! (32 bytes), `challenge_signature` (64 bytes).  Integers are little-endian.

use crate::base64url::{
    decode_b64, decode_base64url, encode_b64, encode_base64url, lemma_b64_byte_is_ascii,
    lemma_b64_round_trip, valid_b64,
};
use crate::errors::CodecError;
use crate::hexstr::{bytes_to_hex, hex_chars_of};
use crate::strconv::{lemma_ascii_bytes_decode, utf8_to_string};
use crate::wire::{
    i64_from_le, i64_le_bytes, lemma_i64_le_round_trip, lemma_u32_le_round_trip, push_i64_le,
    push_u32_le, read_i64_le, read_u32_le, u32_le_bytes, MAX_STRING_FIELD_BYTES,
};
use crate::{CHALLENGE_PARAM_LEN, PUBLIC_KEY_LEN, SIGNATURE_LEN};
use vstd::bytes::spec_u32_from_le_bytes;
use vstd::prelude::*;
use vstd::slice::{slice_subrange, slice_to_vec};
use vstd::string::StrSliceExecFns;
use vstd::utf8::{
    decode_utf8, encode_utf8, encode_utf8_decode_utf8, encode_utf8_valid_utf8, valid_utf8,
};

verus! {

/// A proof-of-work task issued by a server: consumed read-only, never mutated
/// after creation.
pub struct IronShieldChallenge {
    /// Opaque per-issuance random string; prevents replay across challenges.
    pub random_nonce: String,
    /// Issuance time, as a signed Unix timestamp.
    pub created_time: i64,
    /// End of the validity window; the record is expired once the current
    /// time reaches it.
    pub expiration_time: i64,
    /// Opaque identifier of the issuing context.
    pub website_id: String,
    /// Difficulty anchor the search predicate tests candidates against
    /// (32 bytes).
    pub challenge_param: Vec<u8>,
    /// Issuer's verification key (32 bytes).
    pub public_key: Vec<u8>,
    /// Issuer's signature binding the other fields together (64 bytes).
    pub challenge_signature: Vec<u8>,
}

/// The mathematical image of a challenge record.
pub struct ChallengeView {
    pub random_nonce: Seq<char>,
    pub created_time: i64,
    pub expiration_time: i64,
    pub website_id: Seq<char>,
    pub challenge_param: Seq<u8>,
    pub public_key: Seq<u8>,
    pub challenge_signature: Seq<u8>,
}

impl View for IronShieldChallenge {
    type V = ChallengeView;

    open spec fn view(&self) -> ChallengeView {
        ChallengeView {
            random_nonce: self.random_nonce@,
            created_time: self.created_time,
            expiration_time: self.expiration_time,
            website_id: self.website_id@,
            challenge_param: self.challenge_param@,
            public_key: self.public_key@,
            challenge_signature: self.challenge_signature@,
        }
    }
}

/// The record invariant: fixed-size fields have their exact sizes, the
/// validity window is non-empty, and string fields fit their length prefix.
pub open spec fn challenge_view_wf(v: ChallengeView) -> bool {
    &&& v.created_time < v.expiration_time
    &&& v.challenge_param.len() == CHALLENGE_PARAM_LEN
    &&& v.public_key.len() == PUBLIC_KEY_LEN
    &&& v.challenge_signature.len() == SIGNATURE_LEN
    &&& encode_utf8(v.random_nonce).len() <= MAX_STRING_FIELD_BYTES
    &&& encode_utf8(v.website_id).len() <= MAX_STRING_FIELD_BYTES
}

/// The canonical byte encoding of a challenge.
pub open spec fn challenge_wire(v: ChallengeView) -> Seq<u8> {
    let nb = encode_utf8(v.random_nonce);
    let wb = encode_utf8(v.website_id);
    u32_le_bytes(nb.len() as u32) + nb + i64_le_bytes(v.created_time) + i64_le_bytes(
        v.expiration_time,
    ) + u32_le_bytes(wb.len() as u32) + wb + v.challenge_param + v.public_key
        + v.challenge_signature
}

/// The challenge a byte sequence stands for, or `None` when any length,
/// UTF-8, or invariant check fails.  The total length must match exactly.
pub open spec fn parse_challenge(b: Seq<u8>) -> Option<ChallengeView> {
    if b.len() < 4 {
        None
    } else {
        let n1 = spec_u32_from_le_bytes(b.subrange(0, 4)) as int;
        if n1 > MAX_STRING_FIELD_BYTES || b.len() < 24 + n1 {
            None
        } else {
            let nb = b.subrange(4, 4 + n1);
            let created = i64_from_le(b.subrange(4 + n1, 12 + n1));
            let expiration = i64_from_le(b.subrange(12 + n1, 20 + n1));
            let n2 = spec_u32_from_le_bytes(b.subrange(20 + n1, 24 + n1)) as int;
            if n2 > MAX_STRING_FIELD_BYTES || b.len() != 152 + n1 + n2 {
                None
            } else {
                let wb = b.subrange(24 + n1, 24 + n1 + n2);
                let param = b.subrange(24 + n1 + n2, 56 + n1 + n2);
                let pk = b.subrange(56 + n1 + n2, 88 + n1 + n2);
                let sig = b.subrange(88 + n1 + n2, 152 + n1 + n2);
                if !valid_utf8(nb) || !valid_utf8(wb) || created >= expiration {
                    None
                } else {
                    Some(
                        ChallengeView {
                            random_nonce: decode_utf8(nb),
                            created_time: created,
                            expiration_time: expiration,
                            website_id: decode_utf8(wb),
                            challenge_param: param,
                            public_key: pk,
                            challenge_signature: sig,
                        },
                    )
                }
            }
        }
    }
}

/// The header form of a challenge: Base64URL (no padding) of its wire bytes,
/// as a character sequence.
pub open spec fn challenge_header_chars(v: ChallengeView) -> Seq<char> {
    let e = encode_b64(challenge_wire(v));
    Seq::new(e.len(), |i: int| e[i] as char)
}

/// The challenge a header string stands for, or `None`.
pub open spec fn challenge_from_header(s: Seq<char>) -> Option<ChallengeView> {
    let t = encode_utf8(s);
    if valid_b64(t) {
        parse_challenge(decode_b64(t))
    } else {
        None
    }
}

/// Decoding undoes the wire encoding of every well-formed challenge.
pub proof fn lemma_challenge_wire_round_trip(v: ChallengeView)
    requires
        challenge_view_wf(v),
    ensures
        parse_challenge(challenge_wire(v)) == Some(v),
{
    let nb = encode_utf8(v.random_nonce);
    let wb = encode_utf8(v.website_id);
    let n1 = nb.len() as int;
    let n2 = wb.len() as int;
    let b = challenge_wire(v);
    lemma_u32_le_round_trip(nb.len() as u32);
    lemma_u32_le_round_trip(wb.len() as u32);
    lemma_i64_le_round_trip(v.created_time);
    lemma_i64_le_round_trip(v.expiration_time);
    assert(b.len() == 152 + n1 + n2);
    assert(b.subrange(0, 4) =~= u32_le_bytes(nb.len() as u32));
    assert(b.subrange(4, 4 + n1) =~= nb);
    assert(b.subrange(4 + n1, 12 + n1) =~= i64_le_bytes(v.created_time));
    assert(b.subrange(12 + n1, 20 + n1) =~= i64_le_bytes(v.expiration_time));
    assert(b.subrange(20 + n1, 24 + n1) =~= u32_le_bytes(wb.len() as u32));
    assert(b.subrange(24 + n1, 24 + n1 + n2) =~= wb);
    assert(b.subrange(24 + n1 + n2, 56 + n1 + n2) =~= v.challenge_param);
    assert(b.subrange(56 + n1 + n2, 88 + n1 + n2) =~= v.public_key);
    assert(b.subrange(88 + n1 + n2, 152 + n1 + n2) =~= v.challenge_signature);
    encode_utf8_valid_utf8(v.random_nonce);
    encode_utf8_valid_utf8(v.website_id);
    encode_utf8_decode_utf8(v.random_nonce);
    encode_utf8_decode_utf8(v.website_id);
    assert(parse_challenge(b) == Some(v));
}

/// Decoding undoes the header encoding of every well-formed challenge.
pub proof fn lemma_challenge_header_round_trip(v: ChallengeView)
    requires
        challenge_view_wf(v),
    ensures
        challenge_from_header(challenge_header_chars(v)) == Some(v),
{
    let w = challenge_wire(v);
    let e = encode_b64(w);
    let s = challenge_header_chars(v);
    lemma_b64_round_trip(w);
    assert forall|i: int| 0 <= i < e.len() implies e[i] < 128 by {
        lemma_b64_byte_is_ascii(e[i]);
    }
    lemma_ascii_bytes_decode(e);
    assert(s =~= Seq::new(e.len(), |i: int| e[i] as char));
    assert(encode_utf8(s) == e);
    lemma_challenge_wire_round_trip(v);
}

impl IronShieldChallenge {
    /// The record invariant, at the level of the executable type.
    pub open spec fn well_formed(&self) -> bool {
        challenge_view_wf(self@)
    }

    /// Validates field sizes and the validity window, and builds the record.
    pub fn new(
        random_nonce: String,
        created_time: i64,
        expiration_time: i64,
        website_id: String,
        challenge_param: Vec<u8>,
        public_key: Vec<u8>,
        challenge_signature: Vec<u8>,
    ) -> (r: Result<Self, CodecError>)
        ensures
            r is Ok <==> {
                &&& created_time < expiration_time
                &&& challenge_param@.len() == CHALLENGE_PARAM_LEN
                &&& public_key@.len() == PUBLIC_KEY_LEN
                &&& challenge_signature@.len() == SIGNATURE_LEN
                &&& encode_utf8(random_nonce@).len() <= MAX_STRING_FIELD_BYTES
                &&& encode_utf8(website_id@).len() <= MAX_STRING_FIELD_BYTES
            },
            r matches Ok(c) ==> c@ == (ChallengeView {
                random_nonce: random_nonce@,
                created_time,
                expiration_time,
                website_id: website_id@,
                challenge_param: challenge_param@,
                public_key: public_key@,
                challenge_signature: challenge_signature@,
            }) && c.well_formed(),
            r matches Err(e) ==> e == CodecError::MalformedField,
    {
        if created_time >= expiration_time {
            return Err(CodecError::MalformedField);
        }
        if challenge_param.len() != CHALLENGE_PARAM_LEN {
            return Err(CodecError::MalformedField);
        }
        if public_key.len() != PUBLIC_KEY_LEN {
            return Err(CodecError::MalformedField);
        }
        if challenge_signature.len() != SIGNATURE_LEN {
            return Err(CodecError::MalformedField);
        }
        let nb = random_nonce.as_str().as_bytes_vec();
        if nb.len() > MAX_STRING_FIELD_BYTES {
            return Err(CodecError::MalformedField);
        }
        let wb = website_id.as_str().as_bytes_vec();
        if wb.len() > MAX_STRING_FIELD_BYTES {
            return Err(CodecError::MalformedField);
        }
        Ok(
            IronShieldChallenge {
                random_nonce,
                created_time,
                expiration_time,
                website_id,
                challenge_param,
                public_key,
                challenge_signature,
            },
        )
    }

    /// Serializes the record into its canonical wire bytes.
    pub fn to_wire_bytes(&self) -> (r: Vec<u8>)
        requires
            self.well_formed(),
        ensures
            r@ == challenge_wire(self@),
    {
        let mut out: Vec<u8> = Vec::new();
        let mut nb = self.random_nonce.as_str().as_bytes_vec();
        push_u32_le(&mut out, nb.len() as u32);
        out.append(&mut nb);
        push_i64_le(&mut out, self.created_time);
        push_i64_le(&mut out, self.expiration_time);
        let mut wb = self.website_id.as_str().as_bytes_vec();
        push_u32_le(&mut out, wb.len() as u32);
        out.append(&mut wb);
        let mut param = slice_to_vec(self.challenge_param.as_slice());
        out.append(&mut param);
        let mut pk = slice_to_vec(self.public_key.as_slice());
        out.append(&mut pk);
        let mut sig = slice_to_vec(self.challenge_signature.as_slice());
        out.append(&mut sig);
        proof {
            assert(out@ =~= challenge_wire(self@));
        }
        out
    }

    /// Parses canonical wire bytes; rejects any length, UTF-8, or invariant
    /// violation with `MalformedField`.
    pub fn from_wire_bytes(b: &[u8]) -> (r: Result<Self, CodecError>)
        ensures
            r matches Ok(c) ==> parse_challenge(b@) == Some(c@) && c.well_formed(),
            r is Err <==> parse_challenge(b@) is None,
            r matches Err(e) ==> e == CodecError::MalformedField,
    {
        let n = b.len();
        if n < 4 {
            return Err(CodecError::MalformedField);
        }
        let n1w = read_u32_le(b, 0);
        if n1w > MAX_STRING_FIELD_BYTES as u32 {
            return Err(CodecError::MalformedField);
        }
        let n1 = n1w as usize;
        if n < 24 + n1 {
            return Err(CodecError::MalformedField);
        }
        let nonce_bytes = slice_to_vec(slice_subrange(b, 4, 4 + n1));
        let random_nonce = match utf8_to_string(nonce_bytes) {
            Some(s) => s,
            None => {
                return Err(CodecError::MalformedField);
            },
        };
        let created_time = read_i64_le(b, 4 + n1);
        let expiration_time = read_i64_le(b, 12 + n1);
        let n2w = read_u32_le(b, 20 + n1);
        if n2w > MAX_STRING_FIELD_BYTES as u32 {
            return Err(CodecError::MalformedField);
        }
        let n2 = n2w as usize;
        if n != 152 + n1 + n2 {
            return Err(CodecError::MalformedField);
        }
        let website_bytes = slice_to_vec(slice_subrange(b, 24 + n1, 24 + n1 + n2));
        let website_id = match utf8_to_string(website_bytes) {
            Some(s) => s,
            None => {
                return Err(CodecError::MalformedField);
            },
        };
        if created_time >= expiration_time {
            return Err(CodecError::MalformedField);
        }
        let challenge_param = slice_to_vec(slice_subrange(b, 24 + n1 + n2, 56 + n1 + n2));
        let public_key = slice_to_vec(slice_subrange(b, 56 + n1 + n2, 88 + n1 + n2));
        let challenge_signature = slice_to_vec(slice_subrange(b, 88 + n1 + n2, 152 + n1 + n2));
        proof {
            encode_utf8_decode_utf8(random_nonce@);
            encode_utf8_decode_utf8(website_id@);
        }
        Ok(
            IronShieldChallenge {
                random_nonce,
                created_time,
                expiration_time,
                website_id,
                challenge_param,
                public_key,
                challenge_signature,
            },
        )
    }

    /// Encodes the record as a Base64URL header string without padding.
    pub fn to_base64url_header(&self) -> (r: String)
        requires
            self.well_formed(),
        ensures
            r@ == challenge_header_chars(self@),
    {
        let w = self.to_wire_bytes();
        let enc = encode_base64url(w.as_slice());
        proof {
            lemma_b64_round_trip(w@);
            assert forall|i: int| 0 <= i < enc@.len() implies enc@[i] < 128 by {
                lemma_b64_byte_is_ascii(enc@[i]);
            }
            lemma_ascii_bytes_decode(enc@);
        }
        let ghost encs = enc@;
        match utf8_to_string(enc) {
            Some(s) => {
                proof {
                    encode_utf8_decode_utf8(s@);
                    assert(s@ == decode_utf8(encs));
                    assert(challenge_header_chars(self@) =~= decode_utf8(encs));
                }
                s
            },
            None => vstd::pervasive::unreached(),
        }
    }

    /// Decodes a Base64URL header string back into a challenge.
    /// `MalformedEncoding` names a non-canonical Base64URL form;
    /// `MalformedField` a layout or invariant violation inside it.
    pub fn from_base64url_header(s: &str) -> (r: Result<Self, CodecError>)
        ensures
            r matches Ok(c) ==> challenge_from_header(s@) == Some(c@) && c.well_formed(),
            r is Err <==> challenge_from_header(s@) is None,
            r == Err::<Self, CodecError>(CodecError::MalformedEncoding) <==> !valid_b64(
                encode_utf8(s@),
            ),
    {
        let tb = s.as_bytes_vec();
        match decode_base64url(tb.as_slice()) {
            Some(w) => Self::from_wire_bytes(w.as_slice()),
            None => Err(CodecError::MalformedEncoding),
        }
    }

    /// The per-issuance random string.
    pub fn random_nonce(&self) -> (r: String)
        ensures
            r@ == self@.random_nonce,
    {
        self.random_nonce.clone()
    }

    /// The issuance time.
    pub fn created_time(&self) -> (r: i64)
        ensures
            r == self@.created_time,
    {
        self.created_time
    }

    /// The end of the validity window.
    pub fn expiration_time(&self) -> (r: i64)
        ensures
            r == self@.expiration_time,
    {
        self.expiration_time
    }

    /// The issuing-context identifier.
    pub fn website_id(&self) -> (r: String)
        ensures
            r@ == self@.website_id,
    {
        self.website_id.clone()
    }

    /// The difficulty anchor, as lowercase hex.
    pub fn challenge_param_hex(&self) -> (r: String)
        ensures
            r@ == hex_chars_of(self@.challenge_param),
    {
        bytes_to_hex(self.challenge_param.as_slice())
    }

    /// The issuer's key, as lowercase hex.
    pub fn public_key_hex(&self) -> (r: String)
        ensures
            r@ == hex_chars_of(self@.public_key),
    {
        bytes_to_hex(self.public_key.as_slice())
    }

    /// The challenge signature, as lowercase hex.
    pub fn challenge_signature_hex(&self) -> (r: String)
        ensures
            r@ == hex_chars_of(self@.challenge_signature),
    {
        bytes_to_hex(self.challenge_signature.as_slice())
    }
}

} // verus!
