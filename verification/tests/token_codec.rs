use example_crud_blog_seaorm::error::AppError;
use example_crud_blog_seaorm::token::TokenCodec;
use hmac::Mac;

fn codec() -> TokenCodec {
    TokenCodec::new(b"test-signing-secret".to_vec(), 3600)
}

#[test]
fn token_round_trip_returns_id() {
    let c = codec();
    let t = c.generate_token(42, 1_700_000_000);
    assert_eq!(c.verify_token(&t, 1_700_000_000), Ok(42));
}

#[test]
fn token_round_trip_at_expiry_boundary() {
    let c = codec();
    let t = c.generate_token(7, 1_700_000_000);
    // still valid exactly at expires_at
    assert_eq!(c.verify_token(&t, 1_700_000_000 + 3600), Ok(7));
}

#[test]
fn token_round_trip_largest_id() {
    let c = codec();
    let t = c.generate_token(u64::MAX, 0);
    assert_eq!(c.verify_token(&t, 0), Ok(u64::MAX));
}

#[test]
fn token_expired_after_ttl() {
    let c = codec();
    let t = c.generate_token(42, 1_700_000_000);
    assert_eq!(c.verify_token(&t, 1_700_000_000 + 3601), Err(AppError::TokenExpired));
    assert_eq!(c.verify_token(&t, u64::MAX), Err(AppError::TokenExpired));
}

#[test]
fn token_flip_any_byte_is_invalid() {
    let c = codec();
    let t = c.generate_token(42, 1_700_000_000);
    for i in 0..t.len() {
        for flip in [1u8, 0x80] {
            let mut bad = t.clone();
            bad[i] ^= flip;
            let res = c.verify_token(&bad, 1_700_000_000);
            assert_eq!(
                res,
                Err(AppError::InvalidToken),
                "byte {} flipped by {:#x} must invalidate the token",
                i,
                flip
            );
        }
    }
}

#[test]
fn token_truncated_or_empty_is_invalid() {
    let c = codec();
    let t = c.generate_token(42, 1_700_000_000);
    assert_eq!(c.verify_token(&t[..t.len() - 1], 1_700_000_000), Err(AppError::InvalidToken));
    assert_eq!(c.verify_token(&[], 1_700_000_000), Err(AppError::InvalidToken));
    assert_eq!(c.verify_token(b"not a token", 1_700_000_000), Err(AppError::InvalidToken));
}

#[test]
fn token_other_key_is_invalid() {
    let c = codec();
    let other = TokenCodec::new(b"another-secret".to_vec(), 3600);
    let t = c.generate_token(42, 1_700_000_000);
    assert_eq!(other.verify_token(&t, 1_700_000_000), Err(AppError::InvalidToken));
}

#[test]
fn token_signature_matches_independent_hmac() {
    // The token must end in the hex HMAC-SHA-256 tag of its first sixty
    // bytes, as computed by the hmac crate directly.
    let key = b"test-signing-secret";
    let c = TokenCodec::new(key.to_vec(), 3600);
    let t = c.generate_token(42, 1_700_000_000);
    assert_eq!(t.len(), 124);
    let payload = &t[..60];
    let mut mac = <hmac::Hmac<sha2::Sha256> as hmac::KeyInit>::new_from_slice(key).unwrap();
    mac.update(payload);
    let tag = mac.finalize().into_bytes();
    let mut expected = String::new();
    for b in tag.iter() {
        expected.push_str(&format!("{:02x}", b));
    }
    assert_eq!(&t[60..], expected.as_bytes());
}

#[test]
fn token_payload_is_readable_decimal() {
    let c = codec();
    let t = c.generate_token(42, 1_700_000_000);
    let text = core::str::from_utf8(&t[..60]).unwrap();
    assert_eq!(&text[0..20], "00000000000000000042");
    assert_eq!(&text[20..40], "00000000001700000000");
    assert_eq!(&text[40..60], "00000000001700003600");
}

#[test]
fn token_with_overflowing_id_field_is_invalid_even_when_signed() {
    // Sign a payload whose id field exceeds u64 with the real key: the
    // signature is valid, but the value cannot be represented, so the token
    // is rejected rather than wrapped around.
    let key = b"test-signing-secret";
    let c = TokenCodec::new(key.to_vec(), 3600);
    let mut forged = Vec::new();
    forged.extend_from_slice(b"99999999999999999999"); // > u64::MAX
    forged.extend_from_slice(b"00000000001700000000");
    forged.extend_from_slice(b"00000000009999999999");
    let mut mac = <hmac::Hmac<sha2::Sha256> as hmac::KeyInit>::new_from_slice(key).unwrap();
    mac.update(&forged);
    for b in mac.finalize().into_bytes().iter() {
        forged.extend_from_slice(format!("{:02x}", b).as_bytes());
    }
    assert_eq!(c.verify_token(&forged, 1_700_000_000), Err(AppError::InvalidToken));
}

#[test]
fn token_with_empty_secret_still_round_trips() {
    let c = TokenCodec::new(Vec::new(), 10);
    let t = c.generate_token(1, 0);
    assert_eq!(c.verify_token(&t, 5), Ok(1));
    assert_eq!(c.verify_token(&t, 11), Err(AppError::TokenExpired));
}

#[test]
fn duplicate_codec_verifies_the_same_tokens() {
    let c = codec();
    let d = c.duplicate();
    let t = c.generate_token(9, 50);
    assert_eq!(d.verify_token(&t, 60), Ok(9));
}
