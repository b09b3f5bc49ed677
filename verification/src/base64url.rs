//! Base64URL transform without padding, used for the header form of the wire
//! encoding.  Encoding maps each 3-byte group to 4 alphabet bytes; a trailing
//! group of 1 or 2 bytes maps to 2 or 3 alphabet bytes.  Decoding accepts only
//! canonical input: alphabet bytes, a length that is not 1 mod 4, and unused
//! trailing sextet bits equal to zero.

use vstd::prelude::*;

verus! {

/// The alphabet byte standing for sextet value `v`:
/// `A`-`Z`, `a`-`z`, `0`-`9`, `-`, `_`.
pub open spec fn b64_byte_of(v: u8) -> u8 {
    if v < 26 {
        (v + 65) as u8
    } else if v < 52 {
        (v + 71) as u8
    } else if v < 62 {
        (v - 4) as u8
    } else if v == 62 {
        45u8
    } else {
        95u8
    }
}

/// Whether `b` is a byte of the Base64URL alphabet.
pub open spec fn is_b64_byte(b: u8) -> bool {
    ||| 65 <= b <= 90
    ||| 97 <= b <= 122
    ||| 48 <= b <= 57
    ||| b == 45
    ||| b == 95
}

/// The sextet value of an alphabet byte `b` (meaningful when `is_b64_byte(b)`).
pub open spec fn b64_val_of(b: u8) -> u8 {
    if 65 <= b <= 90 {
        (b - 65) as u8
    } else if 97 <= b <= 122 {
        (b - 71) as u8
    } else if 48 <= b <= 57 {
        (b + 4) as u8
    } else if b == 45 {
        62u8
    } else {
        63u8
    }
}

/// The Base64URL encoding (without padding) of a byte sequence.
pub open spec fn encode_b64(s: Seq<u8>) -> Seq<u8>
    decreases s.len(),
{
    if s.len() == 0 {
        Seq::<u8>::empty()
    } else if s.len() == 1 {
        let b0 = s[0];
        seq![b64_byte_of(b0 >> 2), b64_byte_of((b0 & 0x03) << 4)]
    } else if s.len() == 2 {
        let b0 = s[0];
        let b1 = s[1];
        seq![
            b64_byte_of(b0 >> 2),
            b64_byte_of(((b0 & 0x03) << 4) | (b1 >> 4)),
            b64_byte_of((b1 & 0x0f) << 2),
        ]
    } else {
        let b0 = s[0];
        let b1 = s[1];
        let b2 = s[2];
        seq![
            b64_byte_of(b0 >> 2),
            b64_byte_of(((b0 & 0x03) << 4) | (b1 >> 4)),
            b64_byte_of(((b1 & 0x0f) << 2) | (b2 >> 6)),
            b64_byte_of(b2 & 0x3f),
        ] + encode_b64(s.skip(3))
    }
}

/// Whether `t` is a canonical Base64URL encoding of some byte sequence.
pub open spec fn valid_b64(t: Seq<u8>) -> bool {
    &&& t.len() % 4 != 1
    &&& forall|j: int| 0 <= j < t.len() ==> is_b64_byte(#[trigger] t[j])
    &&& t.len() % 4 == 2 ==> b64_val_of(t[t.len() - 1]) & 0x0f == 0
    &&& t.len() % 4 == 3 ==> b64_val_of(t[t.len() - 1]) & 0x03 == 0
}

/// The byte sequence that a (valid) Base64URL encoding stands for.
pub open spec fn decode_b64(t: Seq<u8>) -> Seq<u8>
    decreases t.len(),
{
    if t.len() < 2 {
        Seq::<u8>::empty()
    } else if t.len() == 2 {
        let v0 = b64_val_of(t[0]);
        let v1 = b64_val_of(t[1]);
        seq![(v0 << 2) | (v1 >> 4)]
    } else if t.len() == 3 {
        let v0 = b64_val_of(t[0]);
        let v1 = b64_val_of(t[1]);
        let v2 = b64_val_of(t[2]);
        seq![(v0 << 2) | (v1 >> 4), ((v1 & 0x0f) << 4) | (v2 >> 2)]
    } else {
        let v0 = b64_val_of(t[0]);
        let v1 = b64_val_of(t[1]);
        let v2 = b64_val_of(t[2]);
        let v3 = b64_val_of(t[3]);
        seq![
            (v0 << 2) | (v1 >> 4),
            ((v1 & 0x0f) << 4) | (v2 >> 2),
            ((v2 & 0x03) << 6) | v3,
        ] + decode_b64(t.skip(4))
    }
}

/// The alphabet map is a bijection between sextet values and alphabet bytes.
proof fn lemma_b64_byte_inverse(v: u8)
    requires
        v < 64,
    ensures
        is_b64_byte(b64_byte_of(v)),
        b64_val_of(b64_byte_of(v)) == v,
        b64_byte_of(v) < 128,
{
}

/// Every alphabet byte is ASCII.
pub proof fn lemma_b64_byte_is_ascii(b: u8)
    requires
        is_b64_byte(b),
    ensures
        b < 128,
{
}

/// Decoding undoes encoding: the encoding of any byte sequence is canonical,
/// and decodes back to that sequence.
pub proof fn lemma_b64_round_trip(s: Seq<u8>)
    ensures
        valid_b64(encode_b64(s)),
        encode_b64(s).len() % 4 != 1,
        decode_b64(encode_b64(s)) == s,
    decreases s.len(),
{
    let t = encode_b64(s);
    if s.len() == 0 {
        assert(decode_b64(t) =~= s);
    } else if s.len() == 1 {
        let b0 = s[0];
        assert(b0 >> 2 < 64 && (b0 & 0x03) << 4 < 64) by (bit_vector);
        lemma_b64_byte_inverse(b0 >> 2);
        lemma_b64_byte_inverse((b0 & 0x03) << 4);
        assert(((b0 & 0x03) << 4) & 0x0f == 0) by (bit_vector);
        assert(((b0 >> 2) << 2) | (((b0 & 0x03) << 4) >> 4) == b0) by (bit_vector);
        assert(decode_b64(t) =~= s);
    } else if s.len() == 2 {
        let b0 = s[0];
        let b1 = s[1];
        let v0 = b0 >> 2;
        let v1 = ((b0 & 0x03) << 4) | (b1 >> 4);
        let v2 = (b1 & 0x0f) << 2;
        assert(b0 >> 2 < 64 && ((b0 & 0x03) << 4) | (b1 >> 4) < 64
            && (b1 & 0x0f) << 2 < 64) by (bit_vector);
        lemma_b64_byte_inverse(v0);
        lemma_b64_byte_inverse(v1);
        lemma_b64_byte_inverse(v2);
        assert(((b1 & 0x0f) << 2) & 0x03 == 0) by (bit_vector);
        assert(((b0 >> 2) << 2) | ((((b0 & 0x03) << 4) | (b1 >> 4)) >> 4) == b0)
            by (bit_vector);
        assert(((((b0 & 0x03) << 4) | (b1 >> 4)) & 0x0f) << 4 | (((b1 & 0x0f) << 2) >> 2)
            == b1) by (bit_vector);
        assert(decode_b64(t) =~= s);
    } else {
        let b0 = s[0];
        let b1 = s[1];
        let b2 = s[2];
        let v0 = b0 >> 2;
        let v1 = ((b0 & 0x03) << 4) | (b1 >> 4);
        let v2 = ((b1 & 0x0f) << 2) | (b2 >> 6);
        let v3 = b2 & 0x3f;
        assert(b0 >> 2 < 64 && ((b0 & 0x03) << 4) | (b1 >> 4) < 64
            && ((b1 & 0x0f) << 2) | (b2 >> 6) < 64 && b2 & 0x3f < 64) by (bit_vector);
        lemma_b64_byte_inverse(v0);
        lemma_b64_byte_inverse(v1);
        lemma_b64_byte_inverse(v2);
        lemma_b64_byte_inverse(v3);
        let rest = s.skip(3);
        lemma_b64_round_trip(rest);
        let tr = encode_b64(rest);
        assert(t.len() == 4 + tr.len());
        assert(t.skip(4) =~= tr);
        // The last byte of `t` is the last byte of `tr` whenever a tail
        // condition applies, and the length residues agree.
        assert(t.len() % 4 == tr.len() % 4);
        if tr.len() > 0 {
            assert(t[t.len() - 1] == tr[tr.len() - 1]);
        }
        assert(((b0 >> 2) << 2) | ((((b0 & 0x03) << 4) | (b1 >> 4)) >> 4) == b0)
            by (bit_vector);
        assert(((((b0 & 0x03) << 4) | (b1 >> 4)) & 0x0f) << 4
            | (((((b1 & 0x0f) << 2) | (b2 >> 6))) >> 2) == b1) by (bit_vector);
        assert((((((b1 & 0x0f) << 2) | (b2 >> 6))) & 0x03) << 6 | (b2 & 0x3f) == b2)
            by (bit_vector);
        assert(decode_b64(t) =~= seq![b0, b1, b2] + decode_b64(t.skip(4)));
        assert(decode_b64(t) =~= s);
    }
}

/// The alphabet byte standing for sextet value `v`.
fn b64_byte(v: u8) -> (r: u8)
    requires
        v < 64,
    ensures
        r == b64_byte_of(v),
{
    if v < 26 {
        v + 65
    } else if v < 52 {
        v + 71
    } else if v < 62 {
        v - 4
    } else if v == 62 {
        45
    } else {
        95
    }
}

/// The sextet value of `b`, or `None` when `b` is outside the alphabet.
fn b64_val(b: u8) -> (r: Option<u8>)
    ensures
        r is Some <==> is_b64_byte(b),
        r matches Some(v) ==> v == b64_val_of(b) && v < 64,
{
    if 65 <= b && b <= 90 {
        Some(b - 65)
    } else if 97 <= b && b <= 122 {
        Some(b - 71)
    } else if 48 <= b && b <= 57 {
        Some(b + 4)
    } else if b == 45 {
        Some(62)
    } else if b == 95 {
        Some(63)
    } else {
        None
    }
}

/// Encodes a byte sequence as Base64URL without padding.
pub fn encode_base64url(s: &[u8]) -> (r: Vec<u8>)
    ensures
        r@ == encode_b64(s@),
{
    let n = s.len();
    let mut out: Vec<u8> = Vec::new();
    let mut i: usize = 0;
    proof {
        assert(s@.skip(0) =~= s@);
        assert(out@ + encode_b64(s@.skip(0)) =~= encode_b64(s@));
    }
    while n - i >= 3
        invariant
            i <= n,
            n == s@.len(),
            i % 3 == 0,
            out@ + encode_b64(s@.skip(i as int)) == encode_b64(s@),
        decreases n - i,
    {
        let b0 = s[i];
        let b1 = s[i + 1];
        let b2 = s[i + 2];
        proof {
            assert(b0 >> 2 < 64 && ((b0 & 0x03) << 4) | (b1 >> 4) < 64
                && ((b1 & 0x0f) << 2) | (b2 >> 6) < 64 && b2 & 0x3f < 64) by (bit_vector);
        }
        let c0 = b64_byte(b0 >> 2);
        let c1 = b64_byte(((b0 & 0x03) << 4) | (b1 >> 4));
        let c2 = b64_byte(((b1 & 0x0f) << 2) | (b2 >> 6));
        let c3 = b64_byte(b2 & 0x3f);
        out.push(c0);
        out.push(c1);
        out.push(c2);
        out.push(c3);
        proof {
            let tail = s@.skip(i as int);
            assert(tail[0] == b0 && tail[1] == b1 && tail[2] == b2);
            assert(tail.skip(3) =~= s@.skip(i + 3));
            assert(encode_b64(tail) == seq![c0, c1, c2, c3] + encode_b64(s@.skip(i + 3)));
            assert(out@ + encode_b64(s@.skip(i + 3)) =~= encode_b64(s@));
        }
        i = i + 3;
    }
    if n - i == 1 {
        let b0 = s[i];
        proof {
            assert(b0 >> 2 < 64 && (b0 & 0x03) << 4 < 64) by (bit_vector);
        }
        let c0 = b64_byte(b0 >> 2);
        let c1 = b64_byte((b0 & 0x03) << 4);
        out.push(c0);
        out.push(c1);
        proof {
            let tail = s@.skip(i as int);
            assert(tail.len() == 1 && tail[0] == b0);
            assert(encode_b64(tail) == seq![c0, c1]);
            assert(out@ =~= encode_b64(s@));
        }
    } else if n - i == 2 {
        let b0 = s[i];
        let b1 = s[i + 1];
        proof {
            assert(b0 >> 2 < 64 && ((b0 & 0x03) << 4) | (b1 >> 4) < 64
                && (b1 & 0x0f) << 2 < 64) by (bit_vector);
        }
        let c0 = b64_byte(b0 >> 2);
        let c1 = b64_byte(((b0 & 0x03) << 4) | (b1 >> 4));
        let c2 = b64_byte((b1 & 0x0f) << 2);
        out.push(c0);
        out.push(c1);
        out.push(c2);
        proof {
            let tail = s@.skip(i as int);
            assert(tail.len() == 2 && tail[0] == b0 && tail[1] == b1);
            assert(encode_b64(tail) == seq![c0, c1, c2]);
            assert(out@ =~= encode_b64(s@));
        }
    } else {
        proof {
            assert(s@.skip(i as int).len() == 0);
            assert(encode_b64(s@.skip(i as int)) =~= Seq::<u8>::empty());
            assert(out@ =~= encode_b64(s@));
        }
    }
    out
}

/// Decodes a Base64URL (no padding) byte sequence; `None` exactly on
/// non-canonical input.
pub fn decode_base64url(t: &[u8]) -> (r: Option<Vec<u8>>)
    ensures
        r is Some <==> valid_b64(t@),
        r matches Some(v) ==> v@ == decode_b64(t@),
{
    let n = t.len();
    if n % 4 == 1 {
        return None;
    }
    let mut out: Vec<u8> = Vec::new();
    let mut i: usize = 0;
    proof {
        assert(t@.skip(0) =~= t@);
        assert(out@ + decode_b64(t@.skip(0)) =~= decode_b64(t@));
    }
    while n - i >= 4
        invariant
            i <= n,
            n == t@.len(),
            i % 4 == 0,
            n % 4 != 1,
            forall|j: int| 0 <= j < i ==> is_b64_byte(#[trigger] t@[j]),
            out@ + decode_b64(t@.skip(i as int)) == decode_b64(t@),
        decreases n - i,
    {
        let r0 = b64_val(t[i]);
        let r1 = b64_val(t[i + 1]);
        let r2 = b64_val(t[i + 2]);
        let r3 = b64_val(t[i + 3]);
        match (r0, r1, r2, r3) {
            (Some(v0), Some(v1), Some(v2), Some(v3)) => {
                out.push((v0 << 2) | (v1 >> 4));
                out.push(((v1 & 0x0f) << 4) | (v2 >> 2));
                out.push(((v2 & 0x03) << 6) | v3);
                proof {
                    let tail = t@.skip(i as int);
                    assert(tail[0] == t@[i as int] && tail[1] == t@[i + 1]
                        && tail[2] == t@[i + 2] && tail[3] == t@[i + 3]);
                    assert(tail.skip(4) =~= t@.skip(i + 4));
                    assert(out@ + decode_b64(t@.skip(i + 4)) =~= decode_b64(t@));
                }
                i = i + 4;
            },
            _ => {
                return None;
            },
        }
    }
    let rem = n - i;
    if rem == 0 {
        proof {
            assert(decode_b64(t@.skip(i as int)) =~= Seq::<u8>::empty());
            assert(out@ =~= decode_b64(t@));
            assert(n % 4 == 0);
        }
        Some(out)
    } else if rem == 2 {
        let r0 = b64_val(t[i]);
        let r1 = b64_val(t[i + 1]);
        match (r0, r1) {
            (Some(v0), Some(v1)) => {
                if v1 & 0x0f != 0 {
                    return None;
                }
                out.push((v0 << 2) | (v1 >> 4));
                proof {
                    let tail = t@.skip(i as int);
                    assert(tail.len() == 2);
                    assert(tail[0] == t@[i as int] && tail[1] == t@[i + 1]);
                    assert(out@ =~= decode_b64(t@));
                    assert(n % 4 == 2 && t@[n - 1] == t@[i + 1]);
                }
                Some(out)
            },
            _ => None,
        }
    } else {
        let r0 = b64_val(t[i]);
        let r1 = b64_val(t[i + 1]);
        let r2 = b64_val(t[i + 2]);
        match (r0, r1, r2) {
            (Some(v0), Some(v1), Some(v2)) => {
                if v2 & 0x03 != 0 {
                    return None;
                }
                out.push((v0 << 2) | (v1 >> 4));
                out.push(((v1 & 0x0f) << 4) | (v2 >> 2));
                proof {
                    let tail = t@.skip(i as int);
                    assert(tail.len() == 3);
                    assert(tail[0] == t@[i as int] && tail[1] == t@[i + 1]
                        && tail[2] == t@[i + 2]);
                    assert(out@ =~= decode_b64(t@));
                    assert(n % 4 == 3 && t@[n - 1] == t@[i + 2]);
                }
                Some(out)
            },
            _ => None,
        }
    }
}

} // verus!
