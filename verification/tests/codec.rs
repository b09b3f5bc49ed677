use ironshield_pow::base64url::{decode_base64url, encode_base64url};
use ironshield_pow::challenge::IronShieldChallenge;
use ironshield_pow::errors::CodecError;
use ironshield_pow::response::IronShieldChallengeResponse;

fn sample_challenge() -> IronShieldChallenge {
    IronShieldChallenge::new(
        String::from("abc123"),
        1_000,
        2_000,
        String::from("example"),
        vec![1u8; 32],
        vec![2u8; 32],
        vec![3u8; 64],
    )
    .unwrap()
}

#[test]
fn base64url_rfc_vectors() {
    let cases: Vec<(&[u8], &[u8])> = vec![
        (b"", b""),
        (b"f", b"Zg"),
        (b"fo", b"Zm8"),
        (b"foo", b"Zm9v"),
        (b"foob", b"Zm9vYg"),
        (b"fooba", b"Zm9vYmE"),
        (b"foobar", b"Zm9vYmFy"),
    ];
    for (plain, encoded) in cases {
        assert_eq!(encode_base64url(plain), encoded.to_vec());
        assert_eq!(decode_base64url(encoded), Some(plain.to_vec()));
    }
}

#[test]
fn base64url_uses_url_safe_alphabet() {
    // Sextets 62 and 63 must map to '-' and '_', not '+' and '/'.
    let encoded = encode_base64url(&[0xfb, 0xff]);
    assert_eq!(encoded, b"-_8".to_vec());
    assert_eq!(decode_base64url(b"-_8"), Some(vec![0xfb, 0xff]));
}

#[test]
fn base64url_rejects_non_canonical_input() {
    assert_eq!(decode_base64url(b"A"), None); // length 1 mod 4
    assert_eq!(decode_base64url(b"Zg=="), None); // padding is not accepted
    assert_eq!(decode_base64url(b"Zh"), None); // trailing sextet bits set
    assert_eq!(decode_base64url(b"Z*"), None); // outside the alphabet
}

#[test]
fn challenge_header_round_trip() {
    let c = sample_challenge();
    let header = c.to_base64url_header();
    let d = IronShieldChallenge::from_base64url_header(&header).unwrap();
    assert_eq!(d.random_nonce(), "abc123");
    assert_eq!(d.created_time(), 1_000);
    assert_eq!(d.expiration_time(), 2_000);
    assert_eq!(d.website_id(), "example");
    assert_eq!(d.challenge_param, vec![1u8; 32]);
    assert_eq!(d.public_key, vec![2u8; 32]);
    assert_eq!(d.challenge_signature, vec![3u8; 64]);
}

#[test]
fn challenge_header_round_trip_unicode_fields() {
    let c = IronShieldChallenge::new(
        String::from("n\u{00e9}e-\u{2603}"),
        -5,
        9_000_000_000,
        String::from("\u{4f8b}.example"),
        vec![0u8; 32],
        vec![0u8; 32],
        vec![0u8; 64],
    )
    .unwrap();
    let d = IronShieldChallenge::from_base64url_header(&c.to_base64url_header()).unwrap();
    assert_eq!(d.random_nonce(), "n\u{00e9}e-\u{2603}");
    assert_eq!(d.website_id(), "\u{4f8b}.example");
    assert_eq!(d.created_time(), -5);
}

#[test]
fn challenge_wire_bytes_exact_layout() {
    let c = IronShieldChallenge::new(
        String::from("A"),
        0,
        1,
        String::new(),
        vec![7u8; 32],
        vec![8u8; 32],
        vec![9u8; 64],
    )
    .unwrap();
    let mut expected: Vec<u8> = Vec::new();
    expected.extend_from_slice(&[1, 0, 0, 0]); // nonce length, little-endian
    expected.push(b'A'); // nonce bytes
    expected.extend_from_slice(&[0; 8]); // created_time = 0
    expected.extend_from_slice(&[1, 0, 0, 0, 0, 0, 0, 0]); // expiration_time = 1
    expected.extend_from_slice(&[0, 0, 0, 0]); // website_id length
    expected.extend_from_slice(&[7u8; 32]);
    expected.extend_from_slice(&[8u8; 32]);
    expected.extend_from_slice(&[9u8; 64]);
    assert_eq!(c.to_wire_bytes(), expected);
}

#[test]
fn challenge_new_rejects_bad_fields() {
    let bad_window = IronShieldChallenge::new(
        String::new(),
        5,
        5,
        String::new(),
        vec![0u8; 32],
        vec![0u8; 32],
        vec![0u8; 64],
    );
    assert_eq!(bad_window.err(), Some(CodecError::MalformedField));
    let bad_param = IronShieldChallenge::new(
        String::new(),
        0,
        1,
        String::new(),
        vec![0u8; 31],
        vec![0u8; 32],
        vec![0u8; 64],
    );
    assert_eq!(bad_param.err(), Some(CodecError::MalformedField));
    let bad_sig = IronShieldChallenge::new(
        String::new(),
        0,
        1,
        String::new(),
        vec![0u8; 32],
        vec![0u8; 32],
        vec![0u8; 63],
    );
    assert_eq!(bad_sig.err(), Some(CodecError::MalformedField));
}

#[test]
fn challenge_decode_error_kinds() {
    // Not Base64URL at all.
    assert_eq!(
        IronShieldChallenge::from_base64url_header("!!!!").err(),
        Some(CodecError::MalformedEncoding)
    );
    // Canonical Base64URL, but not a challenge record.
    let header = String::from_utf8(encode_base64url(&[1, 2, 3])).unwrap();
    assert_eq!(
        IronShieldChallenge::from_base64url_header(&header).err(),
        Some(CodecError::MalformedField)
    );
}

#[test]
fn challenge_wire_rejects_invalid_utf8_and_window() {
    // Nonce of one byte 0xFF: not UTF-8.
    let mut bad_utf8: Vec<u8> = Vec::new();
    bad_utf8.extend_from_slice(&[1, 0, 0, 0]);
    bad_utf8.push(0xFF);
    bad_utf8.extend_from_slice(&[0; 8]);
    bad_utf8.extend_from_slice(&[1, 0, 0, 0, 0, 0, 0, 0]);
    bad_utf8.extend_from_slice(&[0, 0, 0, 0]);
    bad_utf8.extend_from_slice(&[0u8; 128]);
    assert_eq!(
        IronShieldChallenge::from_wire_bytes(&bad_utf8).err(),
        Some(CodecError::MalformedField)
    );
    // Same shape, valid nonce, but created_time == expiration_time.
    let mut bad_window: Vec<u8> = Vec::new();
    bad_window.extend_from_slice(&[1, 0, 0, 0]);
    bad_window.push(b'x');
    bad_window.extend_from_slice(&[0; 8]);
    bad_window.extend_from_slice(&[0; 8]);
    bad_window.extend_from_slice(&[0, 0, 0, 0]);
    bad_window.extend_from_slice(&[0u8; 128]);
    assert_eq!(
        IronShieldChallenge::from_wire_bytes(&bad_window).err(),
        Some(CodecError::MalformedField)
    );
    // Trailing garbage after a well-formed record is rejected.
    let mut trailing = sample_challenge().to_wire_bytes();
    trailing.push(0);
    assert_eq!(
        IronShieldChallenge::from_wire_bytes(&trailing).err(),
        Some(CodecError::MalformedField)
    );
}

#[test]
fn challenge_hex_getters() {
    let c = sample_challenge();
    assert_eq!(c.challenge_param_hex(), "01".repeat(32));
    assert_eq!(c.public_key_hex(), "02".repeat(32));
    assert_eq!(c.challenge_signature_hex(), "03".repeat(64));
    // Cross-check one value against the hex crate itself.
    assert_eq!(c.public_key_hex(), hex::encode(vec![2u8; 32]));
}

#[test]
fn response_header_round_trip() {
    let r = IronShieldChallengeResponse::new(vec![5u8; 64], -123).unwrap();
    let header = r.to_base64url_header();
    let d = IronShieldChallengeResponse::from_base64url_header(&header).unwrap();
    assert_eq!(d.challenge_signature, vec![5u8; 64]);
    assert_eq!(d.solution(), -123);
}

#[test]
fn response_wire_bytes_exact_layout() {
    let r = IronShieldChallengeResponse::new(vec![0xabu8; 64], 258).unwrap();
    let mut expected = vec![0xabu8; 64];
    expected.extend_from_slice(&[2, 1, 0, 0, 0, 0, 0, 0]); // 258, little-endian
    assert_eq!(r.to_wire_bytes(), expected);
}

#[test]
fn response_new_validates_signature_length() {
    assert!(IronShieldChallengeResponse::new(vec![0u8; 64], 0).is_ok());
    assert_eq!(
        IronShieldChallengeResponse::new(vec![0u8; 63], 0).err(),
        Some(CodecError::MalformedField)
    );
    assert_eq!(
        IronShieldChallengeResponse::new(vec![0u8; 65], 0).err(),
        Some(CodecError::MalformedField)
    );
}

#[test]
fn response_from_hex_parts() {
    let ok = IronShieldChallengeResponse::from_hex_parts(&"00".repeat(64), 42).unwrap();
    assert_eq!(ok.challenge_signature, vec![0u8; 64]);
    assert_eq!(ok.solution(), 42);
    let mixed_case = IronShieldChallengeResponse::from_hex_parts(&"aB".repeat(64), 7).unwrap();
    assert_eq!(mixed_case.challenge_signature, vec![0xabu8; 64]);
    assert_eq!(mixed_case.challenge_signature_hex(), "ab".repeat(64));
    // Odd length, non-digit, and wrong decoded size are all malformed.
    assert!(IronShieldChallengeResponse::from_hex_parts("abc", 0).is_err());
    assert!(IronShieldChallengeResponse::from_hex_parts(&"zz".repeat(64), 0).is_err());
    assert!(IronShieldChallengeResponse::from_hex_parts(&"00".repeat(63), 0).is_err());
}

#[test]
fn response_decode_error_kinds() {
    assert_eq!(
        IronShieldChallengeResponse::from_base64url_header("?").err(),
        Some(CodecError::MalformedEncoding)
    );
    let header = String::from_utf8(encode_base64url(&[0u8; 5])).unwrap();
    assert_eq!(
        IronShieldChallengeResponse::from_base64url_header(&header).err(),
        Some(CodecError::MalformedField)
    );
}
