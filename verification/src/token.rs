//! Verification tokens: each binds an email address to one attempt at
//! registration, for a fixed time. A token is written once, read when it
//! is used, and removed when that use succeeds.

use vstd::prelude::*;
use vstd::slice::slice_to_vec;
use crate::error::ApiError;
use crate::sources::{clock_time, now_micros, random_bytes};

verus! {

/// How long a token stays valid: 24 hours, in microseconds.
pub const TOKEN_LIFETIME_MICROS: i64 = 86_400_000_000;

/// How many random bytes identify a token.
pub const TOKEN_ID_LENGTH: usize = 32;

/// What a client sends to be invited.
#[derive(Debug, PartialEq, Eq)]
pub struct EmailVerificationTokenMessage {
    pub email: String,
}

/// A token. Times are microseconds since the start of 1970, UTC.
#[derive(Debug, PartialEq, Eq)]
pub struct EmailVerificationToken {
    pub id: Vec<u8>,
    pub email: String,
    pub created_at: i64,
    pub expires_at: i64,
}

/// An `EmailVerificationToken` as mathematics.
pub struct TokenView {
    pub id: Seq<u8>,
    pub email: Seq<char>,
    pub created_at: i64,
    pub expires_at: i64,
}

impl View for EmailVerificationTokenMessage {
    type V = Seq<char>;

    open spec fn view(&self) -> Seq<char> {
        self.email@
    }
}

impl View for EmailVerificationToken {
    type V = TokenView;

    open spec fn view(&self) -> TokenView {
        TokenView { id: self.id@, email: self.email@, created_at: self.created_at, expires_at: self.expires_at }
    }
}

impl Clone for EmailVerificationTokenMessage {
    fn clone(&self) -> (copy: Self)
        ensures
            copy@ == self@,
    {
        EmailVerificationTokenMessage { email: self.email.clone() }
    }
}

impl Clone for EmailVerificationToken {
    fn clone(&self) -> (copy: Self)
        ensures
            copy@ == self@,
    {
        EmailVerificationToken {
            id: self.id.clone(),
            email: self.email.clone(),
            created_at: self.created_at,
            expires_at: self.expires_at,
        }
    }
}

/// Whether some token has this identifier.
pub open spec fn has_token(tokens: Seq<TokenView>, id: Seq<u8>) -> bool {
    exists|i: int| 0 <= i < tokens.len() && (#[trigger] tokens[i]).id == id
}

/// No two tokens share an identifier.
pub open spec fn distinct_tokens(tokens: Seq<TokenView>) -> bool {
    forall|i: int, j: int| 0 <= i < j < tokens.len() ==> (#[trigger] tokens[i]).id != (#[trigger] tokens[j]).id
}

/// Every token's identifier has the full length.
pub open spec fn full_length_ids(tokens: Seq<TokenView>) -> bool {
    forall|i: int| 0 <= i < tokens.len() ==> (#[trigger] tokens[i]).id.len() == TOKEN_ID_LENGTH
}

/// The token with this identifier, where there is one.
pub open spec fn token_of(tokens: Seq<TokenView>, id: Seq<u8>) -> TokenView {
    tokens[choose|i: int| 0 <= i < tokens.len() && (#[trigger] tokens[i]).id == id]
}

/// What looking a token up gives.
pub open spec fn find_outcome(tokens: Seq<TokenView>, id: Seq<u8>) -> Result<TokenView, ApiError> {
    if has_token(tokens, id) {
        Ok(token_of(tokens, id))
    } else {
        Err(ApiError::NotFound)
    }
}

/// The token for an email, with the identifier and time given: it expires
/// one lifetime after `now`. A time so late that the expiry cannot be
/// written is an internal failure.
pub open spec fn minted(email: Seq<char>, id: Seq<u8>, now: i64) -> Result<TokenView, ApiError> {
    if now + TOKEN_LIFETIME_MICROS > i64::MAX {
        Err(ApiError::Internal)
    } else {
        Ok(TokenView { id, email, created_at: now, expires_at: (now + TOKEN_LIFETIME_MICROS) as i64 })
    }
}

/// What issuing a token does for each identifier and time: the result, and
/// the tokens afterwards.
pub open spec fn issue_outcome(tokens: Seq<TokenView>, email: Seq<char>, id: Seq<u8>, now: i64) -> (
    Result<TokenView, ApiError>,
    Seq<TokenView>,
) {
    match minted(email, id, now) {
        Err(e) => (Err(e), tokens),
        Ok(token) => if has_token(tokens, id) {
            (Err(ApiError::Conflict), tokens)
        } else {
            (Ok(token), tokens.push(token))
        },
    }
}

/// What removing a token does: how many it removes, and the tokens
/// afterwards, the others in the order they had.
pub open spec fn consume_outcome(tokens: Seq<TokenView>, id: Seq<u8>) -> (usize, Seq<TokenView>) {
    if has_token(tokens, id) {
        let i = choose|i: int| 0 <= i < tokens.len() && (#[trigger] tokens[i]).id == id;
        (1, tokens.remove(i))
    } else {
        (0, tokens)
    }
}

/// The result of an operation as mathematics.
pub open spec fn token_result_view(res: Result<EmailVerificationToken, ApiError>) -> Result<TokenView, ApiError> {
    match res {
        Ok(token) => Ok(token@),
        Err(e) => Err(e),
    }
}

/// Whether two byte strings are the same.
pub fn same_bytes(a: &[u8], b: &[u8]) -> (same: bool)
    ensures
        same == (a@ == b@),
{
    if a.len() != b.len() {
        return false;
    }
    let mut i: usize = 0;
    while i < a.len()
        invariant
            i <= a.len(),
            a.len() == b.len(),
            forall|j: int| 0 <= j < i ==> a@[j] == b@[j],
        decreases a.len() - i,
    {
        if a[i] != b[i] {
            return false;
        }
        i += 1;
    }
    assert(a@ =~= b@);
    true
}

/// The tokens that were issued and not yet used.
pub struct TokenStore {
    tokens: Vec<EmailVerificationToken>,
}

impl View for TokenStore {
    type V = Seq<TokenView>;

    closed spec fn view(&self) -> Seq<TokenView> {
        self.tokens@.map_values(|t: EmailVerificationToken| t@)
    }
}

impl TokenStore {
    /// The store's invariant: no two tokens share an identifier, and every
    /// identifier has the full length.
    pub open spec fn wf(&self) -> bool {
        distinct_tokens(self@) && full_length_ids(self@)
    }

    /// A store without tokens.
    pub fn new() -> (store: TokenStore)
        ensures
            store@ == Seq::<TokenView>::empty(),
            store.wf(),
    {
        let store = TokenStore { tokens: Vec::new() };
        assert(store@ =~= Seq::<TokenView>::empty());
        store
    }

    /// How many tokens there are.
    pub fn len(&self) -> (n: usize)
        ensures
            n == self@.len(),
    {
        self.tokens.len()
    }

    fn position_of(&self, id: &[u8]) -> (pos: Option<usize>)
        ensures
            match pos {
                Some(i) => i < self@.len() && self@[i as int].id == id@,
                None => !has_token(self@, id@),
            },
    {
        let mut i: usize = 0;
        while i < self.tokens.len()
            invariant
                i <= self.tokens.len(),
                self@.len() == self.tokens.len(),
                forall|j: int| 0 <= j < i ==> (#[trigger] self@[j]).id != id@,
            decreases self.tokens.len() - i,
        {
            if same_bytes(self.tokens[i].id.as_slice(), id) {
                assert(self@[i as int].id == id@);
                return Some(i);
            }
            assert(self@[i as int].id != id@);
            i += 1;
        }
        None
    }
}

impl EmailVerificationToken {
    /// Whether the token's time has passed at `now`. A token is still good
    /// at the very moment it expires.
    pub fn is_expired(&self, now: i64) -> (expired: bool)
        ensures
            expired == (self.expires_at < now),
    {
        self.expires_at < now
    }

    /// The token for the email in `body`, with the identifier and time
    /// given. It is stored nowhere yet.
    pub fn new(body: EmailVerificationTokenMessage, id: &[u8; 32], now: i64) -> (res: Result<
        EmailVerificationToken,
        ApiError,
    >)
        ensures
            token_result_view(res) == minted(body@, id@, now),
    {
        match now.checked_add(TOKEN_LIFETIME_MICROS) {
            Some(expires_at) => Ok(
                EmailVerificationToken { id: slice_to_vec(id.as_slice()), email: body.email, created_at: now, expires_at },
            ),
            None => Err(ApiError::Internal),
        }
    }

    /// The token for the email in `body`, with 32 fresh random bytes as
    /// its identifier and the clock's time. It is stored nowhere yet. This
    /// never fails: no time of the clock is too late for an expiry.
    pub fn generate(body: EmailVerificationTokenMessage) -> (res: Result<EmailVerificationToken, ApiError>)
        ensures
            res is Ok,
            exists|id: Seq<u8>, now: i64|
                id.len() == TOKEN_ID_LENGTH && clock_time(now) && #[trigger] minted(body@, id, now)
                    == token_result_view(res),
    {
        let id = random_bytes();
        let now = now_micros();
        EmailVerificationToken::new(body, &id, now)
    }

    /// Issues a token for the email in `body`, with the identifier and
    /// time given.
    pub fn create_with(store: &mut TokenStore, body: EmailVerificationTokenMessage, id: &[u8; 32], now: i64) -> (res:
        Result<EmailVerificationToken, ApiError>)
        requires
            old(store).wf(),
        ensures
            final(store).wf(),
            (token_result_view(res), final(store)@) == issue_outcome(old(store)@, body@, id@, now),
    {
        let token = match EmailVerificationToken::new(body, id, now) {
            Ok(token) => token,
            Err(e) => { return Err(e); },
        };
        if store.position_of(id.as_slice()).is_some() {
            return Err(ApiError::Conflict);
        }
        let issued = token.clone();
        store.tokens.push(token);
        proof {
            assert(store@ =~= old(store)@.push(issued@));
            assert forall|i: int, j: int| 0 <= i < j < store@.len() implies
                (#[trigger] store@[i]).id != (#[trigger] store@[j]).id
            by {
                if j == old(store)@.len() {
                    assert(old(store)@[i].id != id@);
                }
            }
            assert forall|i: int| 0 <= i < store@.len() implies (#[trigger] store@[i]).id.len()
                == TOKEN_ID_LENGTH by {
                if i < old(store)@.len() {
                    assert(store@[i] == old(store)@[i]);
                }
            }
        }
        Ok(issued)
    }

    /// Issues a token for the email in `body`, with 32 fresh random bytes
    /// as its identifier and the clock's time. This fails only where the
    /// bytes drawn are the identifier of a token in the store: then it is
    /// a conflict, and never one on an empty store.
    pub fn create(store: &mut TokenStore, body: EmailVerificationTokenMessage) -> (res: Result<
        EmailVerificationToken,
        ApiError,
    >)
        requires
            old(store).wf(),
        ensures
            final(store).wf(),
            exists|id: Seq<u8>, now: i64|
                id.len() == TOKEN_ID_LENGTH && clock_time(now) && #[trigger] issue_outcome(
                    old(store)@,
                    body@,
                    id,
                    now,
                ) == (token_result_view(res), final(store)@),
            res matches Err(e) ==> e == ApiError::Conflict && final(store)@ == old(store)@,
            res matches Ok(token) ==> final(store)@ == old(store)@.push(token@) && token@.email == body@
                && token@.expires_at == token@.created_at + TOKEN_LIFETIME_MICROS,
            old(store)@.len() == 0 ==> res is Ok,
    {
        let id = random_bytes();
        let now = now_micros();
        EmailVerificationToken::create_with(store, body, &id, now)
    }

    /// The token with this identifier.
    pub fn find(store: &TokenStore, id: &[u8]) -> (res: Result<EmailVerificationToken, ApiError>)
        requires
            store.wf(),
        ensures
            token_result_view(res) == find_outcome(store@, id@),
            res matches Ok(token) ==> token@.id.len() == TOKEN_ID_LENGTH,
    {
        match store.position_of(id) {
            Some(i) => {
                proof {
                    let k = choose|k: int| 0 <= k < store@.len() && (#[trigger] store@[k]).id == id@;
                    assert(store@[i as int].id == id@);
                    assert(k == i);
                }
                Ok(store.tokens[i].clone())
            },
            None => Err(ApiError::NotFound),
        }
    }

    /// Removes the token with this identifier, and says how many tokens
    /// that removed: one, or none where there was no such token.
    pub fn delete(store: &mut TokenStore, id: &[u8]) -> (res: Result<usize, ApiError>)
        requires
            old(store).wf(),
        ensures
            final(store).wf(),
            res matches Ok(count) && (count, final(store)@) == consume_outcome(old(store)@, id@),
            !has_token(final(store)@, id@),
    {
        match store.position_of(id) {
            Some(i) => {
                store.tokens.remove(i);
                proof {
                    let before = old(store)@;
                    let k = choose|k: int| 0 <= k < before.len() && (#[trigger] before[k]).id == id@;
                    assert(before[i as int].id == id@);
                    assert(k == i);
                    assert(store@ =~= before.remove(i as int));
                    assert forall|a: int| 0 <= a < store@.len() implies
                        (#[trigger] store@[a]).id != id@
                    by {
                        if a < i {
                            assert(before[a].id != before[i as int].id);
                        } else {
                            assert(before[i as int].id != before[a + 1].id);
                        }
                    }
                    assert forall|a: int, b: int| 0 <= a < b < store@.len() implies
                        (#[trigger] store@[a]).id != (#[trigger] store@[b]).id
                    by {
                        let a0 = if a < i { a } else { a + 1 };
                        let b0 = if b < i { b } else { b + 1 };
                        assert(before[a0].id != before[b0].id);
                    }
                    assert forall|a: int| 0 <= a < store@.len() implies (#[trigger] store@[a]).id.len()
                        == TOKEN_ID_LENGTH by {
                        let a0 = if a < i { a } else { a + 1 };
                        assert(store@[a] == before[a0]);
                    }
                }
                Ok(1)
            },
            None => Ok(0),
        }
    }
}

/// A token that was just issued is found under its identifier, carries
/// the email it was issued for, and expires after the moment of issue.
pub proof fn lemma_issued_token_is_found(tokens: Seq<TokenView>, email: Seq<char>, id: Seq<u8>, now: i64)
    requires
        distinct_tokens(tokens),
        issue_outcome(tokens, email, id, now).0 is Ok,
    ensures
        find_outcome(issue_outcome(tokens, email, id, now).1, id) == issue_outcome(tokens, email, id, now).0,
        find_outcome(issue_outcome(tokens, email, id, now).1, id) matches Ok(token) && token.email == email
            && token.expires_at > now,
{
    let after = issue_outcome(tokens, email, id, now).1;
    let last = tokens.len() as int;
    assert(after[last].id == id);
    let k = choose|k: int| 0 <= k < after.len() && (#[trigger] after[k]).id == id;
    if k != last {
        assert(tokens[k].id == id);
        assert(has_token(tokens, id));
    }
}

/// A token that was removed is found no more.
pub proof fn lemma_consumed_token_is_gone(tokens: Seq<TokenView>, id: Seq<u8>)
    requires
        distinct_tokens(tokens),
    ensures
        find_outcome(consume_outcome(tokens, id).1, id) == Err::<TokenView, ApiError>(ApiError::NotFound),
        distinct_tokens(consume_outcome(tokens, id).1),
{
    let after = consume_outcome(tokens, id).1;
    if has_token(tokens, id) {
        let i = choose|i: int| 0 <= i < tokens.len() && (#[trigger] tokens[i]).id == id;
        assert forall|a: int| 0 <= a < after.len() implies
            (#[trigger] after[a]).id != id
        by {
            if a < i {
                assert(tokens[a].id != tokens[i].id);
            } else {
                assert(tokens[i].id != tokens[a + 1].id);
            }
        }
        assert forall|a: int, b: int| 0 <= a < b < after.len() implies
            (#[trigger] after[a]).id != (#[trigger] after[b]).id
        by {
            let a0 = if a < i { a } else { a + 1 };
            let b0 = if b < i { b } else { b + 1 };
            assert(tokens[a0].id != tokens[b0].id);
        }
    }
}

} // verus!
