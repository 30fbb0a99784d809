use auth_core::error::ApiError;
use auth_core::token::{
    same_bytes, EmailVerificationToken, EmailVerificationTokenMessage, TokenStore, TOKEN_LIFETIME_MICROS,
};

fn body(email: &str) -> EmailVerificationTokenMessage {
    EmailVerificationTokenMessage { email: email.to_string() }
}

#[test]
fn token_lives_for_a_day() {
    assert_eq!(TOKEN_LIFETIME_MICROS, 24 * 60 * 60 * 1_000_000);
}

#[test]
fn issued_token_is_found_with_its_email_and_expiry() {
    let mut store = TokenStore::new();
    let id = [5u8; 32];
    let token = EmailVerificationToken::create_with(&mut store, body("a@x.com"), &id, 1_000).unwrap();
    assert_eq!(token.id, id.to_vec());
    assert_eq!(token.email, "a@x.com");
    assert_eq!(token.created_at, 1_000);
    assert_eq!(token.expires_at, 86_400_001_000);
    assert_eq!(store.len(), 1);
    let found = EmailVerificationToken::find(&store, &id).unwrap();
    assert_eq!(found, token);
    assert!(found.expires_at > 1_000);
}

#[test]
fn token_with_fresh_identifier_is_found() {
    let mut store = TokenStore::new();
    let one = EmailVerificationToken::create(&mut store, body("a@x.com")).unwrap();
    let two = EmailVerificationToken::create(&mut store, body("a@x.com")).unwrap();
    assert_eq!(one.id.len(), 32);
    assert_ne!(one.id, two.id);
    assert_eq!(one.expires_at - one.created_at, TOKEN_LIFETIME_MICROS);
    assert!(one.created_at > 1_500_000_000_000_000);
    assert_eq!(EmailVerificationToken::find(&store, &one.id), Ok(one));
    assert_eq!(EmailVerificationToken::find(&store, &two.id), Ok(two));
    assert_eq!(store.len(), 2);
}

#[test]
fn unknown_token_is_not_found() {
    let mut store = TokenStore::new();
    assert_eq!(EmailVerificationToken::find(&store, &[1, 2, 3]), Err(ApiError::NotFound));
    EmailVerificationToken::create_with(&mut store, body("a@x.com"), &[5u8; 32], 0).unwrap();
    assert_eq!(EmailVerificationToken::find(&store, &[6u8; 32]), Err(ApiError::NotFound));
    assert_eq!(EmailVerificationToken::find(&store, &[5u8; 31]), Err(ApiError::NotFound));
    assert_eq!(EmailVerificationToken::find(&store, &[]), Err(ApiError::NotFound));
}

#[test]
fn identifier_in_use_is_a_conflict() {
    let mut store = TokenStore::new();
    EmailVerificationToken::create_with(&mut store, body("a@x.com"), &[5u8; 32], 0).unwrap();
    let again = EmailVerificationToken::create_with(&mut store, body("b@x.com"), &[5u8; 32], 10);
    assert_eq!(again, Err(ApiError::Conflict));
    assert_eq!(store.len(), 1);
    assert_eq!(EmailVerificationToken::find(&store, &[5u8; 32]).unwrap().email, "a@x.com");
}

#[test]
fn expiry_that_cannot_be_written_is_an_internal_failure() {
    let mut store = TokenStore::new();
    let late = i64::MAX - TOKEN_LIFETIME_MICROS + 1;
    assert_eq!(
        EmailVerificationToken::create_with(&mut store, body("a@x.com"), &[5u8; 32], late),
        Err(ApiError::Internal)
    );
    assert_eq!(store.len(), 0);
    let last = EmailVerificationToken::create_with(&mut store, body("a@x.com"), &[5u8; 32], late - 1).unwrap();
    assert_eq!(last.expires_at, i64::MAX);
}

#[test]
fn several_tokens_may_carry_one_email() {
    let mut store = TokenStore::new();
    EmailVerificationToken::create_with(&mut store, body("a@x.com"), &[1u8; 32], 0).unwrap();
    EmailVerificationToken::create_with(&mut store, body("a@x.com"), &[2u8; 32], 5).unwrap();
    assert_eq!(store.len(), 2);
    assert_eq!(EmailVerificationToken::find(&store, &[2u8; 32]).unwrap().created_at, 5);
}

#[test]
fn token_expires_after_its_last_moment() {
    let mut store = TokenStore::new();
    let token = EmailVerificationToken::create_with(&mut store, body("a@x.com"), &[1u8; 32], 1_000).unwrap();
    assert!(!token.is_expired(1_000));
    assert!(!token.is_expired(token.expires_at));
    assert!(token.is_expired(token.expires_at + 1));
}

#[test]
fn deleted_token_is_gone() {
    let mut store = TokenStore::new();
    EmailVerificationToken::create_with(&mut store, body("a@x.com"), &[1u8; 32], 0).unwrap();
    EmailVerificationToken::create_with(&mut store, body("b@x.com"), &[2u8; 32], 0).unwrap();
    assert_eq!(EmailVerificationToken::delete(&mut store, &[1u8; 32]), Ok(1));
    assert_eq!(EmailVerificationToken::find(&store, &[1u8; 32]), Err(ApiError::NotFound));
    assert_eq!(EmailVerificationToken::find(&store, &[2u8; 32]).unwrap().email, "b@x.com");
    assert_eq!(EmailVerificationToken::delete(&mut store, &[1u8; 32]), Ok(0));
    assert_eq!(store.len(), 1);
}

#[test]
fn bytes_are_compared_in_full() {
    assert!(same_bytes(&[], &[]));
    assert!(same_bytes(&[1, 2, 3], &[1, 2, 3]));
    assert!(!same_bytes(&[1, 2, 3], &[1, 2, 4]));
    assert!(!same_bytes(&[1, 2, 3], &[1, 2]));
    assert!(!same_bytes(&[], &[0]));
}

#[test]
fn token_is_made_without_a_store() {
    let token = EmailVerificationToken::new(body("a@x.com"), &[5u8; 32], 1_000).unwrap();
    assert_eq!(token.id, vec![5u8; 32]);
    assert_eq!(token.email, "a@x.com");
    assert_eq!(token.created_at, 1_000);
    assert_eq!(token.expires_at, 1_000 + TOKEN_LIFETIME_MICROS);
    assert_eq!(EmailVerificationToken::new(body("a@x.com"), &[5u8; 32], i64::MAX), Err(ApiError::Internal));
}

#[test]
fn generated_token_has_a_fresh_identifier() {
    let one = EmailVerificationToken::generate(body("a@x.com")).unwrap();
    let two = EmailVerificationToken::generate(body("a@x.com")).unwrap();
    assert_eq!(one.id.len(), 32);
    assert_ne!(one.id, two.id);
    assert_eq!(one.email, "a@x.com");
    assert_eq!(one.expires_at - one.created_at, TOKEN_LIFETIME_MICROS);
}

#[test]
fn issuing_on_an_empty_store_never_fails() {
    for _ in 0..20 {
        let mut store = TokenStore::new();
        let token = EmailVerificationToken::create(&mut store, body("a@x.com")).unwrap();
        assert!(token.created_at >= 0 && token.created_at <= 8_210_266_876_799_999_999);
        assert_eq!(token.expires_at, token.created_at + TOKEN_LIFETIME_MICROS);
        assert_eq!(store.len(), 1);
        assert!(EmailVerificationToken::generate(body("a@x.com")).is_ok());
    }
}
