//! The response record: a claimed solution bound to its originating
//! challenge by that challenge's signature.
//!
//! Wire layout, in order: `challenge_signature` (64 bytes) copied verbatim,
//! then `solution` (8 bytes, little-endian two's complement); 72 bytes total.

use crate::base64url::{
    decode_b64, decode_base64url, encode_b64, encode_base64url, lemma_b64_byte_is_ascii,
    lemma_b64_round_trip, valid_b64,
};
use crate::errors::CodecError;
use crate::hexstr::{
    bytes_to_hex, hex_bytes_value, hex_chars_of, hex_to_bytes, is_hex_bytes,
};
use crate::strconv::{lemma_ascii_bytes_decode, utf8_to_string};
use crate::wire::{i64_from_le, i64_le_bytes, lemma_i64_le_round_trip, push_i64_le, read_i64_le};
use crate::SIGNATURE_LEN;
use vstd::prelude::*;
use vstd::slice::{slice_subrange, slice_to_vec};
use vstd::string::StrSliceExecFns;
use vstd::utf8::{decode_utf8, encode_utf8, encode_utf8_decode_utf8};

verus! {

/// A claimed solution to a challenge: written exactly once by the winning
/// worker, immutable thereafter.
pub struct IronShieldChallengeResponse {
    /// Copy of the originating challenge's signature (64 bytes); the link
    /// that binds the solution to its challenge.
    pub challenge_signature: Vec<u8>,
    /// The nonce claimed to satisfy the difficulty predicate.
    pub solution: i64,
}

/// The mathematical image of a response record.
pub struct ResponseView {
    pub challenge_signature: Seq<u8>,
    pub solution: i64,
}

impl View for IronShieldChallengeResponse {
    type V = ResponseView;

    open spec fn view(&self) -> ResponseView {
        ResponseView {
            challenge_signature: self.challenge_signature@,
            solution: self.solution,
        }
    }
}

/// The record invariant: the signature copy has its exact size.
pub open spec fn response_view_wf(v: ResponseView) -> bool {
    v.challenge_signature.len() == SIGNATURE_LEN
}

/// The canonical byte encoding of a response.
pub open spec fn response_wire(v: ResponseView) -> Seq<u8> {
    v.challenge_signature + i64_le_bytes(v.solution)
}

/// The response a byte sequence stands for, or `None` when it is not exactly
/// 72 bytes.
pub open spec fn parse_response(b: Seq<u8>) -> Option<ResponseView> {
    if b.len() != SIGNATURE_LEN + 8 {
        None
    } else {
        Some(
            ResponseView {
                challenge_signature: b.subrange(0, SIGNATURE_LEN as int),
                solution: i64_from_le(b.subrange(SIGNATURE_LEN as int, SIGNATURE_LEN + 8)),
            },
        )
    }
}

/// The header form of a response: Base64URL (no padding) of its wire bytes.
pub open spec fn response_header_chars(v: ResponseView) -> Seq<char> {
    let e = encode_b64(response_wire(v));
    Seq::new(e.len(), |i: int| e[i] as char)
}

/// The response a header string stands for, or `None`.
pub open spec fn response_from_header(s: Seq<char>) -> Option<ResponseView> {
    let t = encode_utf8(s);
    if valid_b64(t) {
        parse_response(decode_b64(t))
    } else {
        None
    }
}

/// Decoding undoes the wire encoding of every well-formed response.
pub proof fn lemma_response_wire_round_trip(v: ResponseView)
    requires
        response_view_wf(v),
    ensures
        parse_response(response_wire(v)) == Some(v),
{
    let b = response_wire(v);
    lemma_i64_le_round_trip(v.solution);
    assert(b.subrange(0, SIGNATURE_LEN as int) =~= v.challenge_signature);
    assert(b.subrange(SIGNATURE_LEN as int, SIGNATURE_LEN + 8) =~= i64_le_bytes(v.solution));
}

/// Decoding undoes the header encoding of every well-formed response.
pub proof fn lemma_response_header_round_trip(v: ResponseView)
    requires
        response_view_wf(v),
    ensures
        response_from_header(response_header_chars(v)) == Some(v),
{
    let w = response_wire(v);
    let e = encode_b64(w);
    let s = response_header_chars(v);
    lemma_b64_round_trip(w);
    assert forall|i: int| 0 <= i < e.len() implies e[i] < 128 by {
        lemma_b64_byte_is_ascii(e[i]);
    }
    lemma_ascii_bytes_decode(e);
    assert(s =~= Seq::new(e.len(), |i: int| e[i] as char));
    assert(encode_utf8(s) == e);
    lemma_response_wire_round_trip(v);
}

impl IronShieldChallengeResponse {
    /// The record invariant, at the level of the executable type.
    pub open spec fn well_formed(&self) -> bool {
        response_view_wf(self@)
    }

    /// Validates the signature size and builds the record.
    pub fn new(challenge_signature: Vec<u8>, solution: i64) -> (r: Result<Self, CodecError>)
        ensures
            r is Ok <==> challenge_signature@.len() == SIGNATURE_LEN,
            r matches Ok(c) ==> c@ == (ResponseView {
                challenge_signature: challenge_signature@,
                solution,
            }) && c.well_formed(),
            r matches Err(e) ==> e == CodecError::MalformedField,
    {
        if challenge_signature.len() != SIGNATURE_LEN {
            return Err(CodecError::MalformedField);
        }
        Ok(IronShieldChallengeResponse { challenge_signature, solution })
    }

    /// Builds the record from the challenge signature's hex form, as received
    /// from a caller that holds the signature as text.
    pub fn from_hex_parts(challenge_signature_hex: &str, solution: i64) -> (r: Result<
        Self,
        CodecError,
    >)
        ensures
            r is Ok <==> is_hex_bytes(encode_utf8(challenge_signature_hex@))
                && hex_bytes_value(encode_utf8(challenge_signature_hex@)).len()
                == SIGNATURE_LEN,
            r matches Ok(c) ==> c@ == (ResponseView {
                challenge_signature: hex_bytes_value(encode_utf8(challenge_signature_hex@)),
                solution,
            }) && c.well_formed(),
            r matches Err(e) ==> e == CodecError::MalformedField,
    {
        let hb = challenge_signature_hex.as_bytes_vec();
        match hex_to_bytes(hb.as_slice()) {
            Some(sig) => Self::new(sig, solution),
            None => Err(CodecError::MalformedField),
        }
    }

    /// Serializes the record into its canonical wire bytes.
    pub fn to_wire_bytes(&self) -> (r: Vec<u8>)
        requires
            self.well_formed(),
        ensures
            r@ == response_wire(self@),
    {
        let mut out = slice_to_vec(self.challenge_signature.as_slice());
        push_i64_le(&mut out, self.solution);
        out
    }

    /// Parses canonical wire bytes; rejects any other length with
    /// `MalformedField`.
    pub fn from_wire_bytes(b: &[u8]) -> (r: Result<Self, CodecError>)
        ensures
            r matches Ok(c) ==> parse_response(b@) == Some(c@) && c.well_formed(),
            r is Err <==> parse_response(b@) is None,
            r matches Err(e) ==> e == CodecError::MalformedField,
    {
        let n = b.len();
        if n != SIGNATURE_LEN + 8 {
            return Err(CodecError::MalformedField);
        }
        let challenge_signature = slice_to_vec(slice_subrange(b, 0, SIGNATURE_LEN));
        let solution = read_i64_le(b, SIGNATURE_LEN);
        Ok(IronShieldChallengeResponse { challenge_signature, solution })
    }

    /// Encodes the record as a Base64URL header string without padding.
    pub fn to_base64url_header(&self) -> (r: String)
        requires
            self.well_formed(),
        ensures
            r@ == response_header_chars(self@),
    {
        let w = self.to_wire_bytes();
        let enc = encode_base64url(w.as_slice());
        proof {
            lemma_b64_round_trip(w@);
            assert forall|i: int| 0 <= i < enc@.len() implies enc@[i] < 128 by {
                lemma_b64_byte_is_ascii(enc@[i]);
            }
            lemma_ascii_bytes_decode(enc@);
        }
        let ghost encs = enc@;
        match utf8_to_string(enc) {
            Some(s) => {
                proof {
                    encode_utf8_decode_utf8(s@);
                    assert(s@ == decode_utf8(encs));
                    assert(response_header_chars(self@) =~= decode_utf8(encs));
                }
                s
            },
            None => vstd::pervasive::unreached(),
        }
    }

    /// Decodes a Base64URL header string back into a response.
    /// `MalformedEncoding` names a non-canonical Base64URL form;
    /// `MalformedField` a wrong decoded length.
    pub fn from_base64url_header(s: &str) -> (r: Result<Self, CodecError>)
        ensures
            r matches Ok(c) ==> response_from_header(s@) == Some(c@) && c.well_formed(),
            r is Err <==> response_from_header(s@) is None,
            r == Err::<Self, CodecError>(CodecError::MalformedEncoding) <==> !valid_b64(
                encode_utf8(s@),
            ),
    {
        let tb = s.as_bytes_vec();
        match decode_base64url(tb.as_slice()) {
            Some(w) => Self::from_wire_bytes(w.as_slice()),
            None => Err(CodecError::MalformedEncoding),
        }
    }

    /// The bound challenge signature, as lowercase hex.
    pub fn challenge_signature_hex(&self) -> (r: String)
        ensures
            r@ == hex_chars_of(self@.challenge_signature),
    {
        bytes_to_hex(self.challenge_signature.as_slice())
    }

    /// The claimed solution nonce.
    pub fn solution(&self) -> (r: i64)
        ensures
            r == self@.solution,
    {
        self.solution
    }
}

} // verus!
