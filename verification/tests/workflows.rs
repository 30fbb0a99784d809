use auth_core::auth::{
    check_token, compose_invitation, conclude_sign_in, invite, invite_with, register, register_with,
    require_account, require_consumed, sign_in, sign_out, who_am_i, RegistrationMessage,
};
use auth_core::encoding::encode_token;
use auth_core::error::ApiError;
use auth_core::session::{Session, SessionStatus};
use auth_core::store::CredentialStore;
use auth_core::token::{EmailVerificationToken, EmailVerificationTokenMessage, TokenStore, TOKEN_LIFETIME_MICROS};
use auth_core::user::{User, UserMessage};

fn invitation(email: &str) -> EmailVerificationTokenMessage {
    EmailVerificationTokenMessage { email: email.to_string() }
}

fn registration(token: &str, email: &str, password: &str) -> RegistrationMessage {
    RegistrationMessage { token: token.to_string(), email: email.to_string(), password: password.to_string() }
}

fn credentials(email: &str, password: &str) -> UserMessage {
    UserMessage { email: email.to_string(), password: password.to_string() }
}

fn code_of(html: &str) -> String {
    html.strip_prefix("Your confirmation code is: ").unwrap().to_string()
}

#[test]
fn invitation_carries_the_token_in_hex() {
    let mut tokens = TokenStore::new();
    let mail = invite_with(&mut tokens, invitation("a@x.com"), &[0xabu8; 32], 1_000).unwrap();
    assert_eq!(mail.recipient, "a@x.com");
    assert_eq!(mail.subject, "Confirm your email");
    assert_eq!(mail.html, format!("Your confirmation code is: {}", "ab".repeat(32)));
    let token = EmailVerificationToken::find(&tokens, &[0xabu8; 32]).unwrap();
    assert_eq!(token.email, "a@x.com");
    assert_eq!(compose_invitation(&token), mail);
}

#[test]
fn invitation_does_not_ask_for_an_account() {
    let mut tokens = TokenStore::new();
    let mut users = CredentialStore::new();
    User::create_with(&mut users, credentials("a@x.com", "p"), 1, 0, &[1u8; 32]).unwrap();
    assert!(invite_with(&mut tokens, invitation("a@x.com"), &[1u8; 32], 1_000).is_ok());
    assert!(invite(&mut tokens, invitation("a@x.com")).is_ok());
    assert_eq!(tokens.len(), 2);
}

#[test]
fn invitation_fails_where_issuing_fails() {
    let mut tokens = TokenStore::new();
    assert!(invite_with(&mut tokens, invitation("a@x.com"), &[1u8; 32], 1_000).is_ok());
    assert_eq!(invite_with(&mut tokens, invitation("b@x.com"), &[1u8; 32], 1_000), Err(ApiError::Conflict));
    assert_eq!(invite_with(&mut tokens, invitation("b@x.com"), &[2u8; 32], i64::MAX), Err(ApiError::Internal));
    assert_eq!(tokens.len(), 1);
}

#[test]
fn invite_then_register_then_register_again() {
    let mut tokens = TokenStore::new();
    let mut users = CredentialStore::new();
    let mail = invite(&mut tokens, invitation("a@x.com")).unwrap();
    let code = code_of(&mail.html);
    assert_eq!(code.len(), 64);
    let user = register(&mut tokens, &mut users, registration(&code, "a@x.com", "p")).unwrap();
    assert_eq!(user.email, "a@x.com");
    assert_ne!(user.password, "p");
    assert_eq!(user.verify_password(b"p"), Ok(true));
    assert_eq!(users.len(), 1);
    assert_eq!(tokens.len(), 0);
    let again = register(&mut tokens, &mut users, registration(&code, "a@x.com", "p"));
    assert_eq!(again, Err(ApiError::InvalidToken));
    assert_eq!(again.unwrap_err().status_code(), 403);
    assert_eq!(users.len(), 1);
}

#[test]
fn registration_creates_the_user_and_uses_up_the_token() {
    let mut tokens = TokenStore::new();
    let mut users = CredentialStore::new();
    invite_with(&mut tokens, invitation("a@x.com"), &[1u8; 32], 1_000).unwrap();
    invite_with(&mut tokens, invitation("b@x.com"), &[2u8; 32], 1_000).unwrap();
    let code = encode_token(&[1u8; 32]);
    let user = register_with(&mut tokens, &mut users, registration(&code, "a@x.com", "p"), 2_000, 77, &[9u8; 32])
        .unwrap();
    assert_eq!(user.id, 77);
    assert_eq!(user.created_at, 2_000);
    assert_eq!(users.get(0), Some(user));
    assert_eq!(tokens.len(), 1);
    assert_eq!(EmailVerificationToken::find(&tokens, &[1u8; 32]), Err(ApiError::NotFound));
    assert!(EmailVerificationToken::find(&tokens, &[2u8; 32]).is_ok());
}

#[test]
fn token_in_upper_case_registers_too() {
    let mut tokens = TokenStore::new();
    let mut users = CredentialStore::new();
    invite_with(&mut tokens, invitation("a@x.com"), &[0xabu8; 32], 1_000).unwrap();
    let code = "AB".repeat(32);
    assert!(register_with(&mut tokens, &mut users, registration(&code, "a@x.com", "p"), 2_000, 1, &[9u8; 32]).is_ok());
    let lower = "ab".repeat(32);
    assert_eq!(
        register_with(&mut tokens, &mut users, registration(&lower, "a@x.com", "p"), 2_000, 2, &[9u8; 32]),
        Err(ApiError::InvalidToken)
    );
}

#[test]
fn malformed_and_unknown_tokens_are_refused_alike() {
    let mut tokens = TokenStore::new();
    let mut users = CredentialStore::new();
    invite_with(&mut tokens, invitation("a@x.com"), &[1u8; 32], 1_000).unwrap();
    let malformed = register_with(&mut tokens, &mut users, registration("xyz", "a@x.com", "p"), 2_000, 1, &[9u8; 32]);
    let unknown = register_with(
        &mut tokens,
        &mut users,
        registration(&encode_token(&[2u8; 32]), "a@x.com", "p"),
        2_000,
        1,
        &[9u8; 32],
    );
    assert_eq!(malformed, Err(ApiError::InvalidToken));
    assert_eq!(unknown, malformed);
    assert_eq!(users.len(), 0);
    assert_eq!(tokens.len(), 1);
}

#[test]
fn token_for_another_email_is_invalid_even_when_expired() {
    let mut tokens = TokenStore::new();
    let mut users = CredentialStore::new();
    invite_with(&mut tokens, invitation("a@x.com"), &[1u8; 32], 1_000).unwrap();
    let code = encode_token(&[1u8; 32]);
    let fresh = register_with(&mut tokens, &mut users, registration(&code, "b@x.com", "p"), 2_000, 1, &[9u8; 32]);
    let late = 1_000 + TOKEN_LIFETIME_MICROS + 1;
    let expired = register_with(&mut tokens, &mut users, registration(&code, "b@x.com", "p"), late, 1, &[9u8; 32]);
    assert_eq!(fresh, Err(ApiError::InvalidToken));
    assert_eq!(expired, Err(ApiError::InvalidToken));
    assert_eq!(users.len(), 0);
    assert_eq!(tokens.len(), 1);
}

#[test]
fn expired_token_is_told_so() {
    let mut tokens = TokenStore::new();
    let mut users = CredentialStore::new();
    invite_with(&mut tokens, invitation("a@x.com"), &[1u8; 32], 1_000).unwrap();
    let code = encode_token(&[1u8; 32]);
    let last = 1_000 + TOKEN_LIFETIME_MICROS;
    let expired =
        register_with(&mut tokens, &mut users, registration(&code, "a@x.com", "p"), last + 1, 1, &[9u8; 32]);
    assert_eq!(expired, Err(ApiError::TokenExpired));
    assert_eq!(expired.unwrap_err().message(), "Token expired");
    assert_eq!(users.len(), 0);
    assert_eq!(tokens.len(), 1);
    let in_time = register_with(&mut tokens, &mut users, registration(&code, "a@x.com", "p"), last, 1, &[9u8; 32]);
    assert!(in_time.is_ok());
}

#[test]
fn registration_for_a_taken_email_keeps_the_token() {
    let mut tokens = TokenStore::new();
    let mut users = CredentialStore::new();
    User::create_with(&mut users, credentials("a@x.com", "old"), 1, 0, &[1u8; 32]).unwrap();
    invite_with(&mut tokens, invitation("a@x.com"), &[1u8; 32], 1_000).unwrap();
    let code = encode_token(&[1u8; 32]);
    let res = register_with(&mut tokens, &mut users, registration(&code, "a@x.com", "p"), 2_000, 2, &[9u8; 32]);
    assert_eq!(res, Err(ApiError::Conflict));
    assert_eq!(tokens.len(), 1);
    assert_eq!(users.len(), 1);
}

#[test]
fn looked_up_token_is_judged() {
    let mut tokens = TokenStore::new();
    let token = EmailVerificationToken::create_with(&mut tokens, invitation("a@x.com"), &[1u8; 32], 1_000).unwrap();
    let email = "a@x.com".to_string();
    assert_eq!(check_token(Ok(token.clone()), &email, 2_000), Ok(()));
    assert_eq!(check_token(Ok(token.clone()), &"b@x.com".to_string(), 2_000), Err(ApiError::InvalidToken));
    assert_eq!(check_token(Ok(token.clone()), &email, token.expires_at + 1), Err(ApiError::TokenExpired));
    assert_eq!(check_token(Err(ApiError::NotFound), &email, 2_000), Err(ApiError::InvalidToken));
    assert_eq!(check_token(Err(ApiError::Internal), &email, 2_000), Err(ApiError::Internal));
}

#[test]
fn sign_in_then_who_am_i_then_sign_out() {
    let mut users = CredentialStore::new();
    let user = User::create_with(&mut users, credentials("a@x.com", "p"), 5, 0, &[1u8; 32]).unwrap();
    let mut session = Session::new();
    let signed = sign_in(&users, &mut session, credentials("a@x.com", "p")).unwrap();
    assert_eq!(signed, user);
    assert_eq!(session.user_id, Some(5));
    assert_eq!(session.status, SessionStatus::Renewed);
    assert_eq!(who_am_i(&users, &session).unwrap().id, 5);
    assert_eq!(sign_out(&mut session), Ok(()));
    let gone = who_am_i(&users, &session);
    assert_eq!(gone, Err(ApiError::Unauthorized));
    assert_eq!(gone.unwrap_err().status_code(), 401);
    assert_eq!(sign_out(&mut session), Err(ApiError::Unauthorized));
}

#[test]
fn unknown_email_and_wrong_password_fail_alike() {
    let mut users = CredentialStore::new();
    User::create_with(&mut users, credentials("a@x.com", "p"), 5, 0, &[1u8; 32]).unwrap();
    let mut one = Session::new();
    let mut two = Session::new();
    let unknown = sign_in(&users, &mut one, credentials("nobody@x.com", "p"));
    let wrong = sign_in(&users, &mut two, credentials("a@x.com", "q"));
    assert_eq!(unknown, Err(ApiError::InvalidCredentials));
    assert_eq!(wrong, unknown);
    assert_eq!(wrong.as_ref().unwrap_err().status_code(), unknown.as_ref().unwrap_err().status_code());
    assert_eq!(wrong.unwrap_err().message(), unknown.unwrap_err().message());
    assert_eq!(one, Session::new());
    assert_eq!(two, Session::new());
}

#[test]
fn failed_sign_in_keeps_the_session() {
    let mut users = CredentialStore::new();
    User::create_with(&mut users, credentials("a@x.com", "p"), 5, 0, &[1u8; 32]).unwrap();
    let mut session = Session::restore(Some(9));
    assert_eq!(sign_in(&users, &mut session, credentials("a@x.com", "q")), Err(ApiError::InvalidCredentials));
    assert_eq!(session, Session::restore(Some(9)));
}

#[test]
fn sign_in_over_another_user_rebinds() {
    let mut users = CredentialStore::new();
    User::create_with(&mut users, credentials("a@x.com", "p"), 5, 0, &[1u8; 32]).unwrap();
    User::create_with(&mut users, credentials("b@x.com", "q"), 6, 0, &[2u8; 32]).unwrap();
    let mut session = Session::new();
    sign_in(&users, &mut session, credentials("a@x.com", "p")).unwrap();
    sign_in(&users, &mut session, credentials("b@x.com", "q")).unwrap();
    assert_eq!(session.user_id, Some(6));
    assert_eq!(session.status, SessionStatus::Renewed);
}

#[test]
fn looked_up_account_is_judged() {
    let user = User::new(credentials("a@x.com", "hash"), 5, 0);
    assert_eq!(require_account(Ok(user.clone())), Ok(user.clone()));
    assert_eq!(require_account(Err(ApiError::NotFound)), Err(ApiError::InvalidCredentials));
    assert_eq!(require_account(Err(ApiError::Internal)), Err(ApiError::Internal));
    let mut session = Session::new();
    assert_eq!(conclude_sign_in(&mut session, user.clone(), Ok(false)), Err(ApiError::InvalidCredentials));
    assert_eq!(conclude_sign_in(&mut session, user.clone(), Err(ApiError::Internal)), Err(ApiError::Internal));
    assert_eq!(session, Session::new());
    assert_eq!(conclude_sign_in(&mut session, user.clone(), Ok(true)), Ok(user));
    assert_eq!(session.user_id, Some(5));
    assert_eq!(session.status, SessionStatus::Renewed);
}

#[test]
fn stored_text_that_is_no_hash_fails_the_sign_in_inside() {
    let user = User::new(credentials("a@x.com", "not a hash"), 5, 0);
    let verified = user.verify_password(b"not a hash");
    assert_eq!(verified, Err(ApiError::Internal));
    let mut session = Session::new();
    assert_eq!(conclude_sign_in(&mut session, user, verified), Err(ApiError::Internal));
}

#[test]
fn session_of_a_deleted_user_is_not_masked() {
    let mut users = CredentialStore::new();
    User::create_with(&mut users, credentials("a@x.com", "p"), 5, 0, &[1u8; 32]).unwrap();
    let mut session = Session::new();
    sign_in(&users, &mut session, credentials("a@x.com", "p")).unwrap();
    User::delete(&mut users, 5).unwrap();
    assert_eq!(who_am_i(&users, &session), Err(ApiError::NotFound));
}

#[test]
fn registration_counts_only_where_it_removed_the_token() {
    assert_eq!(require_consumed(1), Ok(()));
    assert_eq!(require_consumed(0), Err(ApiError::InvalidToken));
    assert_eq!(require_consumed(2), Ok(()));
}

#[test]
fn invitation_on_an_empty_store_never_fails() {
    for _ in 0..20 {
        let mut tokens = TokenStore::new();
        let mail = invite(&mut tokens, invitation("a@x.com")).unwrap();
        assert_eq!(mail.recipient, "a@x.com");
        assert_eq!(tokens.len(), 1);
    }
}

#[test]
fn registered_password_opens_the_stored_hash() {
    let mut tokens = TokenStore::new();
    let mut users = CredentialStore::new();
    let mail = invite(&mut tokens, invitation("a@x.com")).unwrap();
    let user = register(&mut tokens, &mut users, registration(&code_of(&mail.html), "a@x.com", "p\u{e9}")).unwrap();
    assert_eq!(user.verify_password("p\u{e9}".as_bytes()), Ok(true));
    assert_eq!((user.id >> 76) & 0xf, 4);
    assert_eq!((user.id >> 62) & 0x3, 2);
    assert!(user.created_at >= 0 && user.created_at <= 8_210_266_876_799_999_999);
}

#[test]
fn refused_registration_changes_nothing() {
    let mut tokens = TokenStore::new();
    let mut users = CredentialStore::new();
    invite_with(&mut tokens, invitation("a@x.com"), &[1u8; 32], 1_000).unwrap();
    assert_eq!(
        register(&mut tokens, &mut users, registration(&encode_token(&[1u8; 32]), "b@x.com", "p")),
        Err(ApiError::InvalidToken)
    );
    assert_eq!(register(&mut tokens, &mut users, registration("nothex", "a@x.com", "p")), Err(ApiError::InvalidToken));
    assert_eq!(tokens.len(), 1);
    assert_eq!(users.len(), 0);
}
