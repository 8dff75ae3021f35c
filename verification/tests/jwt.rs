use price_tracker::error::Error;
use price_tracker::jwt::{token_issued_at, MAX_TIMESTAMP, token_expiring_at, claims_from_fields, decode_jwt, encode_claims, generate_jwt, Claims, TOKEN_LIFETIME_HOURS};

fn now() -> u64 {
    std::time::SystemTime::now().duration_since(std::time::UNIX_EPOCH).unwrap().as_secs()
}

#[test]
fn issued_token_reads_back() {
    let key = [7u8; 64];
    let token = generate_jwt(&key, 42).unwrap();
    let claims = decode_jwt(&key, &token).unwrap();
    assert_eq!(claims.sub, 42);
    let expected = now() + 3600 * TOKEN_LIFETIME_HOURS as u64;
    assert!(claims.exp as u64 >= expected - 5 && claims.exp as u64 <= expected + 5);
}

#[test]
fn token_matches_the_struct_encoding() {
    // The claims are encoded as `{"sub":..,"exp":..}`, as a derived `Serialize` would.
    let key = b"secret";
    let token = encode_claims(key, &Claims { sub: -3, exp: 4_000_000_000 });
    let payload = token.split('.').nth(1).unwrap();
    let reference = jsonwebtoken::encode(
        &jsonwebtoken::Header::default(),
        &serde_json::from_str::<serde_json::Value>(r#"{"sub":-3,"exp":4000000000}"#).unwrap(),
        &jsonwebtoken::EncodingKey::from_secret(key),
    )
    .unwrap();
    assert_eq!(token, reference);
    assert!(!payload.is_empty());
}

#[test]
fn wrong_key_is_refused() {
    let token = generate_jwt(&[1u8; 64], 5).unwrap();
    match decode_jwt(&[2u8; 64], &token) {
        Err(Error::Jwt(f)) => assert!(!f.expired),
        other => panic!("unexpected {:?}", other),
    }
}

#[test]
fn expired_token_is_refused_as_expired() {
    let key = [9u8; 64];
    let token = encode_claims(&key, &Claims { sub: 1, exp: 1000 });
    match decode_jwt(&key, &token) {
        Err(Error::Jwt(f)) => assert!(f.expired),
        other => panic!("unexpected {:?}", other),
    }
}

#[test]
fn garbage_is_refused() {
    match decode_jwt(b"k", "not a token") {
        Err(Error::Jwt(f)) => assert!(!f.expired),
        other => panic!("unexpected {:?}", other),
    }
}

#[test]
fn claims_need_both_fields_in_range() {
    assert_eq!(claims_from_fields(Some(5), Some(10)), Ok(Claims { sub: 5, exp: 10 }));
    assert!(claims_from_fields(None, Some(10)).is_err());
    assert!(claims_from_fields(Some(5), None).is_err());
    assert!(claims_from_fields(Some(i64::from(i32::MAX) + 1), Some(10)).is_err());
    assert_eq!(claims_from_fields(Some(i64::from(i32::MIN)), Some(0)), Ok(Claims { sub: i32::MIN, exp: 0 }));
}

#[test]
fn tampered_token_is_refused() {
    let key = [5u8; 64];
    let token = generate_jwt(&key, 1).unwrap();
    let parts: Vec<&str> = token.split('.').collect();
    let other = generate_jwt(&key, 2).unwrap();
    let other_payload = other.split('.').nth(1).unwrap();
    let forged = format!("{}.{}.{}", parts[0], other_payload, parts[2]);
    match decode_jwt(&key, &forged) {
        Err(Error::Jwt(f)) => assert!(!f.expired),
        other => panic!("unexpected {:?}", other),
    }
    assert!(decode_jwt(&key, "abc").is_err());
}

#[test]
fn token_for_a_clock_reading() {
    let key = [6u8; 64];
    let t1 = token_expiring_at(&key, 9, Some(5_000_000_000)).unwrap();
    let t2 = token_expiring_at(&key, 9, Some(5_000_000_000)).unwrap();
    assert_eq!(t1, t2);
    assert_eq!(t1, encode_claims(&key, &Claims { sub: 9, exp: 5_000_000_000 }));
    assert_eq!(decode_jwt(&key, &t1), Ok(Claims { sub: 9, exp: 5_000_000_000 }));
    match token_expiring_at(&key, 9, None) {
        Err(Error::Jwt(f)) => {
            assert!(!f.expired);
            assert_eq!(f.message, "valid timestamp");
        }
        other => panic!("unexpected {:?}", other),
    }
}

#[test]
fn token_issued_at_a_clock_reading_lasts_a_day() {
    let key = [8u8; 64];
    let token = token_issued_at(&key, 4, 1_700_000_000).unwrap();
    assert_eq!(token, encode_claims(&key, &Claims { sub: 4, exp: 1_700_086_400 }));
    assert_eq!(token, token_issued_at(&key, 4, 1_700_000_000).unwrap());
    assert_eq!(
        token_issued_at(&key, 4, MAX_TIMESTAMP - 86_400).unwrap(),
        encode_claims(&key, &Claims { sub: 4, exp: MAX_TIMESTAMP as usize })
    );
    match token_issued_at(&key, 4, MAX_TIMESTAMP - 86_399) {
        Err(Error::Jwt(f)) => assert_eq!(f.message, "valid timestamp"),
        other => panic!("unexpected {:?}", other),
    }
    // The bound is chrono's own.
    assert!(chrono::DateTime::from_timestamp(MAX_TIMESTAMP, 0).is_some());
    assert!(chrono::DateTime::from_timestamp(MAX_TIMESTAMP + 1, 0).is_none());
    assert!(chrono::DateTime::from_timestamp(price_tracker::jwt::MIN_TIMESTAMP, 0).is_some());
    assert!(chrono::DateTime::from_timestamp(price_tracker::jwt::MIN_TIMESTAMP - 1, 0).is_none());
}
