use myapp::error::AuthError;
use myapp::jwt::{decode, decode_at, encode, Claims, Role};

fn key() -> Vec<u8> {
    b"a-test-signing-secret".to_vec()
}

#[test]
fn check_jwt_encoding_and_decoding() {
    let my_claims = Claims::new(uuid::Uuid::new_v4().as_u128(), Role::User);
    let token = encode(&my_claims, &key()).unwrap();
    let claims = decode(&token, &key()).unwrap();
    assert_eq!(my_claims, claims)
}

#[test]
fn round_trip_keeps_subject_and_role() {
    for (sub, role) in [
        (0u128, Role::User),
        (42u128, Role::Admin),
        (u128::MAX, Role::Admin),
    ] {
        let claims = Claims::new(sub, role);
        let token = encode(&claims, &key()).unwrap();
        let back = decode(&token, &key()).unwrap();
        assert_eq!(back.sub, sub);
        assert_eq!(back.role, role);
    }
}

#[test]
fn expired_token_fails_as_expired_not_invalid() {
    let claims = Claims {
        exp: 1000,
        iat: 500,
        sub: 7,
        role: Role::User,
    };
    let token = encode(&claims, &key()).unwrap();
    // still valid just before the expiry instant
    assert_eq!(decode_at(&token, &key(), 999), Ok(claims));
    // expired from the expiry instant on, and strictly after it
    assert_eq!(
        decode_at(&token, &key(), 1001),
        Err(AuthError::ExpiredSignature)
    );
    assert_eq!(
        decode_at(&token, &key(), i64::MAX),
        Err(AuthError::ExpiredSignature)
    );
}

#[test]
fn tampered_token_is_invalid() {
    let claims = Claims {
        exp: 1000,
        iat: 500,
        sub: 7,
        role: Role::User,
    };
    let token = encode(&claims, &key()).unwrap();
    let mut tampered = token.clone();
    // flip a payload character
    let pos = token.find('.').unwrap() + 1;
    let replacement = if &token[pos..pos + 1] == "A" { "B" } else { "A" };
    tampered.replace_range(pos..pos + 1, replacement);
    assert_eq!(
        decode_at(&tampered, &key(), 0),
        Err(AuthError::InvalidToken)
    );
}

#[test]
fn wrong_key_is_invalid() {
    let claims = Claims {
        exp: 1000,
        iat: 500,
        sub: 7,
        role: Role::Admin,
    };
    let token = encode(&claims, &key()).unwrap();
    let other = b"another-secret".to_vec();
    assert_eq!(decode_at(&token, &other, 0), Err(AuthError::InvalidToken));
}

#[test]
fn garbage_tokens_are_invalid() {
    for junk in ["", "a.b", "a.b.c", "....", "header.payload.signature"] {
        assert_eq!(
            decode_at(junk, &key(), 0),
            Err(AuthError::InvalidToken),
            "token {junk:?} should be invalid"
        );
    }
}

#[test]
fn fresh_claims_last_one_hour() {
    let claims = Claims::new(9, Role::User);
    assert_eq!(claims.exp, claims.iat + 3600);
    assert_eq!(claims.sub, 9);
    assert_eq!(claims.role, Role::User);
}

#[test]
fn issue_instant_is_kept_and_clamped() {
    let claims = Claims::at_instant(5, Role::Admin, 1000);
    assert_eq!(claims.iat, 1000);
    assert_eq!(claims.exp, 4600);
    // a pre-epoch clock clamps to the epoch
    let clamped = Claims::at_instant(5, Role::Admin, -7);
    assert_eq!(clamped.iat, 0);
    assert_eq!(clamped.exp, 3600);
    // and the end of representable time leaves room for the expiry
    let late = Claims::at_instant(5, Role::Admin, i64::MAX);
    assert_eq!(late.exp, i64::MAX);
}
