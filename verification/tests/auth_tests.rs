use azor::api::ApiError;
use azor::auth::{extract_bearer_token, mint_claims, normalized_email, unix_now_seconds, validate_credentials};

fn bad_request(r: Result<(), ApiError>) -> String {
    match r {
        Err(ApiError::BadRequest(m)) => m,
        other => panic!("expected a bad request, got {:?}", other),
    }
}

#[test]
fn credentials_with_valid_email_and_password_pass() {
    assert!(validate_credentials("  alice@example.com ", "12345678").is_ok());
}

#[test]
fn blank_email_is_rejected() {
    assert_eq!(bad_request(validate_credentials("   ", "12345678")), "valid email is required");
}

#[test]
fn email_without_at_sign_is_rejected() {
    assert_eq!(bad_request(validate_credentials("alice.example.com", "12345678")), "valid email is required");
}

#[test]
fn short_password_is_rejected() {
    assert_eq!(
        bad_request(validate_credentials("alice@example.com", "1234567")),
        "password must be at least 8 characters"
    );
}

#[test]
fn password_length_counts_bytes() {
    // Four two-byte characters make eight bytes.
    assert!(validate_credentials("a@b", "éééé").is_ok());
}

#[test]
fn bearer_token_is_extracted_and_trimmed() {
    assert_eq!(extract_bearer_token("Bearer abc.def ").unwrap(), "abc.def");
}

#[test]
fn repeated_bearer_prefixes_are_all_removed() {
    assert_eq!(extract_bearer_token("Bearer Bearer  tok").unwrap(), "tok");
}

#[test]
fn bearer_round_trip() {
    let token = "eyJhbGciOiJIUzI1NiJ9.payload.sig";
    let header = format!("Bearer {token}");
    assert_eq!(extract_bearer_token(&header).unwrap(), token);
}

#[test]
fn non_bearer_header_is_unauthorized() {
    match extract_bearer_token("Basic dXNlcjpwYXNz") {
        Err(ApiError::Unauthorized(m)) => assert_eq!(m, "authorization header must use Bearer token"),
        other => panic!("unexpected {:?}", other),
    }
    assert!(extract_bearer_token("bearer abc").is_err());
}

#[test]
fn clock_reads_after_2020() {
    let now = unix_now_seconds().unwrap();
    assert!(now > 1_577_836_800);
}

#[test]
fn claims_expire_ttl_minutes_after_issue() {
    let (claims, expires_in) = mint_claims("users:42", "a@b.c", 15, 1_000);
    assert_eq!(expires_in, 900);
    assert_eq!(claims.sub, "users:42");
    assert_eq!(claims.email, "a@b.c");
    assert_eq!(claims.iat, 1_000);
    assert_eq!(claims.exp, 1_900);
}

#[test]
fn claims_saturate_instead_of_overflowing() {
    let (claims, expires_in) = mint_claims("u", "e", u64::MAX, 5);
    assert_eq!(expires_in, u64::MAX);
    assert_eq!(claims.exp as u64, u64::MAX as usize as u64);
    let (claims, _) = mint_claims("u", "e", 1, u64::MAX - 10);
    assert_eq!(claims.exp, (u64::MAX) as usize);
    assert!(claims.exp >= claims.iat);
}

#[test]
fn email_is_trimmed_and_lower_cased() {
    assert_eq!(normalized_email("  Alice@Example.COM\n"), "alice@example.com");
}

#[test]
fn minted_tokens_decode_to_their_claims() {
    let now = azor::auth::unix_now_seconds().unwrap();
    let (token, secs) = azor::auth::mint_token_at("users:1", "a@b.example", 60, now, b"secret");
    assert_eq!(secs, 3600);
    let c = azor::auth::decode_token(&token, b"secret").unwrap();
    assert_eq!(c.sub, "users:1");
    assert_eq!(c.email, "a@b.example");
    assert_eq!(c.iat, now as usize);
    assert_eq!(c.exp, (now + 3600) as usize);
}

#[test]
fn minting_now_gives_a_token_that_decodes() {
    let (token, secs) = azor::auth::mint_token("users:2", "x@y.example", 1, b"k").unwrap();
    assert_eq!(secs, 60);
    let c = azor::auth::decode_token(&token, b"k").unwrap();
    assert_eq!(c.sub, "users:2");
    assert_eq!(c.exp - c.iat, 60);
}

#[test]
fn tokens_with_another_secret_are_rejected() {
    let now = azor::auth::unix_now_seconds().unwrap();
    let (token, _) = azor::auth::mint_token_at("users:1", "a@b.example", 60, now, b"secret");
    match azor::auth::decode_token(&token, b"other") {
        Err(ApiError::Unauthorized(m)) => assert_eq!(m, "invalid or expired token"),
        _ => panic!("expected unauthorized"),
    }
    match azor::auth::decode_token("not a token", b"secret") {
        Err(ApiError::Unauthorized(m)) => assert_eq!(m, "invalid or expired token"),
        _ => panic!("expected unauthorized"),
    }
}

#[test]
fn expired_tokens_are_rejected() {
    let (token, _) = azor::auth::mint_token_at("users:1", "a@b.example", 1, 1000, b"secret");
    assert!(matches!(azor::auth::decode_token(&token, b"secret"), Err(ApiError::Unauthorized(_))));
}

#[test]
fn claims_are_read_from_payload_members() {
    let ms = vec![
        ("exp".to_string(), None, Some(20u64)),
        ("iat".to_string(), None, Some(10u64)),
        ("sub".to_string(), Some("users:9".to_string()), None),
    ];
    let c = azor::auth::claims_from_members(&ms).unwrap();
    assert_eq!((c.sub.as_str(), c.email.as_str(), c.iat, c.exp), ("users:9", "", 10, 20));
    let mut bad = ms.clone();
    bad.push(("email".to_string(), None, Some(1)));
    assert!(azor::auth::claims_from_members(&bad).is_none());
    let no_sub = vec![("exp".to_string(), None, Some(20u64)), ("iat".to_string(), None, Some(10u64))];
    assert!(azor::auth::claims_from_members(&no_sub).is_none());
}
