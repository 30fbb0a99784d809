//! The workflows: invite, register, sign in, sign out, who am I. Each one
//! is given once for chosen random values and time, with an exact
//! contract, and once drawing them itself.

use vstd::prelude::*;
use vstd::string::StringExecFns;
use vstd::utf8::encode_utf8;
use crate::encoding::{decode_token, encode_token, hex_decoding, hex_encoding, is_hex_text, MAX_ENCODED_BYTES};
use crate::error::ApiError;
use crate::password::{argon2_verdict, checked, opens, sealed};
use crate::session::{identity, sign_out_outcome, signed_in, Session};
use crate::sources::{clock_time, drawn_id, now_micros, random_bytes, random_uuid};
use crate::store::{create_outcome, has_email, has_id, lookup_email, lookup_id, user_result_view, CredentialStore};
use crate::token::{
    consume_outcome, distinct_tokens, find_outcome, issue_outcome, token_result_view,
    EmailVerificationToken, EmailVerificationTokenMessage, TokenStore, TokenView, TOKEN_ID_LENGTH,
    TOKEN_LIFETIME_MICROS,
};
use crate::user::{User, UserMessage, UserMessageView, UserView};

verus! {

/// What a client sends to register.
#[derive(Debug, PartialEq, Eq)]
pub struct RegistrationMessage {
    /// The token's identifier, in hexadecimal.
    pub token: String,
    pub email: String,
    pub password: String,
}

/// A `RegistrationMessage` as mathematics.
pub struct RegistrationView {
    pub token: Seq<char>,
    pub email: Seq<char>,
    pub password: Seq<char>,
}

impl View for RegistrationMessage {
    type V = RegistrationView;

    open spec fn view(&self) -> RegistrationView {
        RegistrationView { token: self.token@, email: self.email@, password: self.password@ }
    }
}

/// The message that carries a token to its holder.
#[derive(Debug, PartialEq, Eq)]
pub struct Invitation {
    pub recipient: String,
    pub subject: String,
    pub html: String,
}

/// An `Invitation` as mathematics.
pub struct InvitationView {
    pub recipient: Seq<char>,
    pub subject: Seq<char>,
    pub html: Seq<char>,
}

impl View for Invitation {
    type V = InvitationView;

    open spec fn view(&self) -> InvitationView {
        InvitationView { recipient: self.recipient@, subject: self.subject@, html: self.html@ }
    }
}

/// The message for a token: to the token's email, with the identifier in
/// hexadecimal as the confirmation code.
pub open spec fn invitation_for(token: TokenView) -> InvitationView {
    InvitationView {
        recipient: token.email,
        subject: "Confirm your email"@,
        html: "Your confirmation code is: "@ + hex_encoding(token.id),
    }
}

/// What an invitation does for each identifier and time: it succeeds
/// exactly where issuing the token does, and never asks whether the email
/// has an account.
pub open spec fn invite_outcome(tokens: Seq<TokenView>, email: Seq<char>, id: Seq<u8>, now: i64) -> (
    Result<InvitationView, ApiError>,
    Seq<TokenView>,
) {
    match issue_outcome(tokens, email, id, now).0 {
        Ok(token) => (Ok(invitation_for(token)), issue_outcome(tokens, email, id, now).1),
        Err(e) => (Err(e), tokens),
    }
}

/// What is decided of a token that was looked up, for the email that the
/// client submitted, at the time `now`. An unknown token and one issued
/// for another email are refused alike; only a token that is the right
/// one is told that it has expired.
pub open spec fn vet_token(found: Result<TokenView, ApiError>, email: Seq<char>, now: i64) -> Result<(), ApiError> {
    match found {
        Err(ApiError::NotFound) => Err(ApiError::InvalidToken),
        Err(e) => Err(e),
        Ok(token) => if token.email != email {
            Err(ApiError::InvalidToken)
        } else if token.expires_at < now {
            Err(ApiError::TokenExpired)
        } else {
            Ok(())
        },
    }
}

/// What a registration does for each time, identifier and salt: the
/// result, and the tokens and the accounts afterwards. The token is
/// removed exactly where the account is created.
pub open spec fn register_outcome(
    tokens: Seq<TokenView>,
    users: Seq<UserView>,
    body: RegistrationView,
    now: i64,
    user_id: u128,
    salt: Seq<u8>,
) -> (Result<UserView, ApiError>, Seq<TokenView>, Seq<UserView>) {
    if !is_hex_text(body.token) {
        (Err(ApiError::InvalidToken), tokens, users)
    } else {
        let token_id = hex_decoding(body.token);
        match vet_token(find_outcome(tokens, token_id), body.email, now) {
            Err(e) => (Err(e), tokens, users),
            Ok(()) => {
                let message = UserMessageView { email: body.email, password: body.password };
                match create_outcome(users, message, user_id, now, salt).0 {
                    Ok(user) => (
                        Ok(user),
                        consume_outcome(tokens, token_id).1,
                        create_outcome(users, message, user_id, now, salt).1,
                    ),
                    Err(e) => (Err(e), tokens, users),
                }
            },
        }
    }
}

/// What is decided of an account that was looked up and whose password
/// was checked. A wrong password is refused like an unknown email.
pub open spec fn sign_in_conclusion(session: Session, user: UserView, verified: Result<bool, ApiError>) -> (
    Result<UserView, ApiError>,
    Session,
) {
    match verified {
        Err(e) => (Err(e), session),
        Ok(false) => (Err(ApiError::InvalidCredentials), session),
        Ok(true) => (Ok(user), signed_in(user.id)),
    }
}

/// The account that a sign-in goes on with. That no account has the
/// email shows as invalid credentials.
pub open spec fn known_account(found: Result<UserView, ApiError>) -> Result<UserView, ApiError> {
    match found {
        Err(ApiError::NotFound) => Err(ApiError::InvalidCredentials),
        other => other,
    }
}

/// What a sign-in does, for each verdict of the hashing library on the
/// password: the result, and the session afterwards.
pub open spec fn sign_in_outcome(
    found: Result<UserView, ApiError>,
    verdict: Option<bool>,
    session: Session,
) -> (Result<UserView, ApiError>, Session) {
    match known_account(found) {
        Err(e) => (Err(e), session),
        Ok(user) => sign_in_conclusion(session, user, checked(verdict)),
    }
}

/// The hashing library's verdict on the submitted password against the
/// hash of the account with the submitted email.
pub open spec fn verdict_on(users: Seq<UserView>, credentials: UserMessageView) -> Option<bool> {
    match lookup_email(users, credentials.email) {
        Ok(user) => argon2_verdict(user.password, encode_utf8(credentials.password)),
        Err(_) => None,
    }
}

/// Who the session's client is: the account that the session is bound
/// to. That this account is gone is reported as it is.
pub open spec fn who_am_i_outcome(users: Seq<UserView>, session: Session) -> Result<UserView, ApiError> {
    match identity(session) {
        Ok(id) => lookup_id(users, id),
        Err(e) => Err(e),
    }
}

/// The result of an invitation as mathematics.
pub open spec fn invitation_result_view(res: Result<Invitation, ApiError>) -> Result<InvitationView, ApiError> {
    match res {
        Ok(mail) => Ok(mail@),
        Err(e) => Err(e),
    }
}

/// Writes the message that carries `token` to its holder.
pub fn compose_invitation(token: &EmailVerificationToken) -> (mail: Invitation)
    requires
        token@.id.len() <= MAX_ENCODED_BYTES,
    ensures
        mail@ == invitation_for(token@),
{
    let code = encode_token(token.id.as_slice());
    Invitation {
        recipient: token.email.clone(),
        subject: String::from_str("Confirm your email"),
        html: String::from_str("Your confirmation code is: ").concat(code.as_str()),
    }
}

/// Issues a token for the email in `body`, with the identifier and time
/// given, and writes the message that carries it.
pub fn invite_with(tokens: &mut TokenStore, body: EmailVerificationTokenMessage, id: &[u8; 32], now: i64) -> (res:
    Result<Invitation, ApiError>)
    requires
        old(tokens).wf(),
    ensures
        final(tokens).wf(),
        (invitation_result_view(res), final(tokens)@) == invite_outcome(old(tokens)@, body@, id@, now),
{
    match EmailVerificationToken::create_with(tokens, body, id, now) {
        Ok(token) => Ok(compose_invitation(&token)),
        Err(e) => Err(e),
    }
}

/// Issues a token for the email in `body`, with 32 fresh random bytes as
/// its identifier and the clock's time, and writes the message that
/// carries it. This fails only where the bytes drawn are the identifier
/// of a token in the store: then it is a conflict, and never one on an
/// empty store.
pub fn invite(tokens: &mut TokenStore, body: EmailVerificationTokenMessage) -> (res: Result<Invitation, ApiError>)
    requires
        old(tokens).wf(),
    ensures
        final(tokens).wf(),
        exists|id: Seq<u8>, now: i64|
            id.len() == TOKEN_ID_LENGTH && clock_time(now) && #[trigger] invite_outcome(
                old(tokens)@,
                body@,
                id,
                now,
            ) == (invitation_result_view(res), final(tokens)@),
        res matches Err(e) ==> e == ApiError::Conflict && final(tokens)@ == old(tokens)@,
        res matches Ok(mail) ==> mail@.recipient == body@ && final(tokens)@.len() == old(tokens)@.len() + 1
            && final(tokens)@.last().email == body@ && mail@ == invitation_for(final(tokens)@.last()),
        old(tokens)@.len() == 0 ==> res is Ok,
{
    let id = random_bytes();
    let now = now_micros();
    invite_with(tokens, body, &id, now)
}

/// Decides of a token that was looked up whether it allows a registration
/// for `email` at the time `now`.
pub fn check_token(found: Result<EmailVerificationToken, ApiError>, email: &String, now: i64) -> (res: Result<
    (),
    ApiError,
>)
    ensures
        res == vet_token(token_result_view(found), email@, now),
{
    match found {
        Err(ApiError::NotFound) => Err(ApiError::InvalidToken),
        Err(e) => Err(e),
        Ok(token) => {
            if token.email != *email {
                Err(ApiError::InvalidToken)
            } else if token.is_expired(now) {
                Err(ApiError::TokenExpired)
            } else {
                Ok(())
            }
        },
    }
}

/// Registers an account with the time, identifier and salt given: reads
/// the token's identifier, looks the token up, holds it against the
/// submitted email and the time, creates the account, and then removes
/// the token.
pub fn register_with(
    tokens: &mut TokenStore,
    users: &mut CredentialStore,
    body: RegistrationMessage,
    now: i64,
    user_id: u128,
    salt: &[u8; 32],
) -> (res: Result<User, ApiError>)
    requires
        old(tokens).wf(),
        old(users).wf(),
    ensures
        final(tokens).wf(),
        final(users).wf(),
        (user_result_view(res), final(tokens)@, final(users)@) == register_outcome(
            old(tokens)@,
            old(users)@,
            body@,
            now,
            user_id,
            salt@,
        ),
        res matches Ok(user) ==> opens(user@.password, encode_utf8(body@.password)),
{
    let token_id = match decode_token(body.token.as_str()) {
        Ok(id) => id,
        Err(e) => { return Err(e); },
    };
    let found = EmailVerificationToken::find(tokens, token_id.as_slice());
    match check_token(found, &body.email, now) {
        Ok(()) => {},
        Err(e) => { return Err(e); },
    }
    let message = UserMessage { email: body.email, password: body.password };
    match User::create_with(users, message, user_id, now, salt) {
        Ok(user) => {
            let _ = EmailVerificationToken::delete(tokens, token_id.as_slice());
            Ok(user)
        },
        Err(e) => Err(e),
    }
}

/// Registers an account, with a fresh random identifier and salt and the
/// clock's time. A token that cannot be read, is unknown or was issued
/// for another email is refused whatever is drawn, and so is an email
/// that has an account; every refusal leaves tokens and accounts as they
/// were.
pub fn register(tokens: &mut TokenStore, users: &mut CredentialStore, body: RegistrationMessage) -> (res: Result<
    User,
    ApiError,
>)
    requires
        old(tokens).wf(),
        old(users).wf(),
    ensures
        final(tokens).wf(),
        final(users).wf(),
        exists|now: i64, user_id: u128, salt: Seq<u8>|
            salt.len() == 32 && drawn_id(user_id) && clock_time(now) && #[trigger] register_outcome(
                old(tokens)@,
                old(users)@,
                body@,
                now,
                user_id,
                salt,
            ) == (user_result_view(res), final(tokens)@, final(users)@),
        res matches Ok(user) ==> opens(user@.password, encode_utf8(body@.password)),
        res is Err ==> final(tokens)@ == old(tokens)@ && final(users)@ == old(users)@,
        !is_hex_text(body@.token) || !(find_outcome(old(tokens)@, hex_decoding(body@.token)) matches Ok(token)
            && token.email == body@.email) ==> res == Err::<User, ApiError>(ApiError::InvalidToken),
        has_email(old(users)@, body@.email) ==> res is Err,
{
    let now = now_micros();
    let user_id = random_uuid();
    let salt = random_bytes();
    register_with(tokens, users, body, now, user_id, &salt)
}

/// What is decided once the token's removal was tried: a registration
/// counts only where it removed the token itself.
pub open spec fn consumption(removed: usize) -> Result<(), ApiError> {
    if removed == 0 {
        Err(ApiError::InvalidToken)
    } else {
        Ok(())
    }
}

/// Decides once the token's removal was tried, by the number of tokens
/// that it removed. Where the token was gone already, another
/// registration has used it, and this one is refused as the first would
/// be on a second try.
pub fn require_consumed(removed: usize) -> (res: Result<(), ApiError>)
    ensures
        res == consumption(removed),
{
    if removed == 0 {
        Err(ApiError::InvalidToken)
    } else {
        Ok(())
    }
}

/// Goes on with an account that was looked up for a sign-in.
pub fn require_account(found: Result<User, ApiError>) -> (res: Result<User, ApiError>)
    ensures
        user_result_view(res) == known_account(user_result_view(found)),
{
    match found {
        Err(ApiError::NotFound) => Err(ApiError::InvalidCredentials),
        other => other,
    }
}

/// Ends a sign-in once the password was checked: binds the session to the
/// account where the password fits, and leaves it as it was where not.
pub fn conclude_sign_in(session: &mut Session, user: User, verified: Result<bool, ApiError>) -> (res: Result<User, ApiError>)
    ensures
        (user_result_view(res), *final(session)) == sign_in_conclusion(*old(session), user@, verified),
{
    match verified {
        Err(e) => Err(e),
        Ok(false) => Err(ApiError::InvalidCredentials),
        Ok(true) => {
            session.sign_in(user.id);
            Ok(user)
        },
    }
}

/// Signs a client in: looks the account up by email, checks the password
/// against its hash, and binds the session.
pub fn sign_in(users: &CredentialStore, session: &mut Session, credentials: UserMessage) -> (res: Result<
    User,
    ApiError,
>)
    requires
        users.wf(),
    ensures
        (user_result_view(res), *final(session)) == sign_in_outcome(
            lookup_email(users@, credentials@.email),
            verdict_on(users@, credentials@),
            *old(session),
        ),
{
    let user = match require_account(User::find_by_email(users, credentials.email)) {
        Ok(user) => user,
        Err(e) => { return Err(e); },
    };
    let verified = user.verify_password(credentials.password.as_str().as_bytes());
    conclude_sign_in(session, user, verified)
}

/// Signs a client out.
pub fn sign_out(session: &mut Session) -> (res: Result<(), ApiError>)
    ensures
        (res, *final(session)) == sign_out_outcome(*old(session)),
{
    session.sign_out()
}

/// The account of the session's client, read anew from the store.
pub fn who_am_i(users: &CredentialStore, session: &Session) -> (res: Result<User, ApiError>)
    requires
        users.wf(),
    ensures
        user_result_view(res) == who_am_i_outcome(users@, *session),
{
    match session.current_user() {
        Ok(id) => User::find(users, id),
        Err(e) => Err(e),
    }
}

/// A token issued for one email never registers another: whatever else
/// holds of the token, also that it has expired, the registration is
/// refused as an invalid token, and nothing changes.
pub proof fn lemma_other_email_is_invalid_token(
    tokens: Seq<TokenView>,
    users: Seq<UserView>,
    body: RegistrationView,
    now: i64,
    user_id: u128,
    salt: Seq<u8>,
)
    requires
        is_hex_text(body.token),
        find_outcome(tokens, hex_decoding(body.token)) matches Ok(token) && token.email != body.email,
    ensures
        register_outcome(tokens, users, body, now, user_id, salt) == (
            Err::<UserView, ApiError>(ApiError::InvalidToken),
            tokens,
            users,
        ),
{
}

/// A token that is the right one for the submitted email but has expired
/// is refused as expired, never as invalid, and nothing changes.
pub proof fn lemma_expired_token_is_told_so(
    tokens: Seq<TokenView>,
    users: Seq<UserView>,
    body: RegistrationView,
    now: i64,
    user_id: u128,
    salt: Seq<u8>,
)
    requires
        is_hex_text(body.token),
        find_outcome(tokens, hex_decoding(body.token)) matches Ok(token) && token.email == body.email
            && token.expires_at < now,
    ensures
        register_outcome(tokens, users, body, now, user_id, salt) == (
            Err::<UserView, ApiError>(ApiError::TokenExpired),
            tokens,
            users,
        ),
{
}

/// A token registers once: after a registration that succeeded, every
/// further one that presents the same identifier, however written and
/// whatever else it submits, is refused as an invalid token.
pub proof fn lemma_token_registers_once(
    tokens: Seq<TokenView>,
    users: Seq<UserView>,
    body: RegistrationView,
    now: i64,
    user_id: u128,
    salt: Seq<u8>,
    again: RegistrationView,
    later: i64,
    other_id: u128,
    other_salt: Seq<u8>,
)
    requires
        distinct_tokens(tokens),
        register_outcome(tokens, users, body, now, user_id, salt).0 is Ok,
        hex_decoding(again.token) == hex_decoding(body.token),
    ensures
        register_outcome(
            register_outcome(tokens, users, body, now, user_id, salt).1,
            register_outcome(tokens, users, body, now, user_id, salt).2,
            again,
            later,
            other_id,
            other_salt,
        ).0 == Err::<UserView, ApiError>(ApiError::InvalidToken),
{
    crate::token::lemma_consumed_token_is_gone(tokens, hex_decoding(body.token));
}

/// A registration that presents a token as its invitation carried it, for
/// the email that was invited and before the token expires, is refused
/// neither as invalid nor as expired: the token is found, carries that
/// email and expires after it was issued, and the registration ends as
/// the creation of the account does. Where hashing succeeds and neither
/// the email nor the identifier is taken, that is the account with the
/// invited email.
pub proof fn lemma_invited_email_registers(
    tokens: Seq<TokenView>,
    users: Seq<UserView>,
    email: Seq<char>,
    token_id: Seq<u8>,
    issued_at: i64,
    body: RegistrationView,
    now: i64,
    user_id: u128,
    salt: Seq<u8>,
)
    requires
        distinct_tokens(tokens),
        invite_outcome(tokens, email, token_id, issued_at).0 is Ok,
        body.token == hex_encoding(token_id),
        body.email == email,
        now <= issued_at + TOKEN_LIFETIME_MICROS,
    ensures
        find_outcome(invite_outcome(tokens, email, token_id, issued_at).1, hex_decoding(body.token)) matches Ok(
            token,
        ) && token.id == token_id && token.email == email && token.expires_at > issued_at && token.expires_at
            >= now,
        register_outcome(invite_outcome(tokens, email, token_id, issued_at).1, users, body, now, user_id, salt).0
            == create_outcome(
            users,
            UserMessageView { email: body.email, password: body.password },
            user_id,
            now,
            salt,
        ).0,
        register_outcome(invite_outcome(tokens, email, token_id, issued_at).1, users, body, now, user_id, salt).0
            != Err::<UserView, ApiError>(ApiError::InvalidToken),
        register_outcome(invite_outcome(tokens, email, token_id, issued_at).1, users, body, now, user_id, salt).0
            != Err::<UserView, ApiError>(ApiError::TokenExpired),
        sealed(body.password, salt) is Some && !has_email(users, email) && !has_id(users, user_id) ==> (
            register_outcome(
                invite_outcome(tokens, email, token_id, issued_at).1,
                users,
                body,
                now,
                user_id,
                salt,
            ).0 matches Ok(user) && user.email == email && user.id == user_id),
{
    crate::encoding::lemma_decode_encode(token_id);
    crate::token::lemma_issued_token_is_found(tokens, email, token_id, issued_at);
}

/// After a registration that succeeded, the account is found under the
/// submitted email, and the submitted password is not what it stores.
pub proof fn lemma_registered_account_is_found(
    tokens: Seq<TokenView>,
    users: Seq<UserView>,
    body: RegistrationView,
    now: i64,
    user_id: u128,
    salt: Seq<u8>,
)
    requires
        crate::store::distinct(users),
        register_outcome(tokens, users, body, now, user_id, salt).0 is Ok,
    ensures
        lookup_email(register_outcome(tokens, users, body, now, user_id, salt).2, body.email) == register_outcome(
            tokens,
            users,
            body,
            now,
            user_id,
            salt,
        ).0,
        register_outcome(tokens, users, body, now, user_id, salt).0 matches Ok(user) && user.email == body.email
            && user.password != body.password,
{
    let message = UserMessageView { email: body.email, password: body.password };
    crate::store::lemma_created_account_is_found(users, message, user_id, now, salt);
}

/// A sign-in with an email that no account has and one with the right
/// email and a wrong password fail alike: the same error, so the same
/// status and the same text, and the session as it was.
pub proof fn lemma_sign_in_failures_look_alike(
    users: Seq<UserView>,
    session: Session,
    unknown: Seq<char>,
    known: Seq<char>,
    verdict: Option<bool>,
)
    requires
        lookup_email(users, unknown) is Err,
        lookup_email(users, known) is Ok,
    ensures
        sign_in_outcome(lookup_email(users, unknown), verdict, session) == (
            Err::<UserView, ApiError>(ApiError::InvalidCredentials),
            session,
        ),
        sign_in_outcome(lookup_email(users, known), Some(false), session) == sign_in_outcome(
            lookup_email(users, unknown),
            verdict,
            session,
        ),
{
}

} // verus!
