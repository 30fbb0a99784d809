//! The credential store: the user records, in the order in which they were
//! created, and the operations that read and change them. No two records
//! share an identifier or an email.

use vstd::prelude::*;
use crate::error::ApiError;
use crate::listing::{user_query, Params};
use vstd::utf8::encode_utf8;
use crate::password::{opens, seal, sealed};
use crate::query::{least, list, list_outcome, page_size, rows_view, selected, total_pages};
use crate::sources::{clock_time, drawn_id, now_micros, random_bytes, random_uuid};
use crate::user::{fresh_user, hashed, User, UserMessage, UserMessageView, UserView};

verus! {

/// Whether some record has this email.
pub open spec fn has_email(users: Seq<UserView>, email: Seq<char>) -> bool {
    exists|i: int| 0 <= i < users.len() && (#[trigger] users[i]).email == email
}

/// Whether some record has this identifier.
pub open spec fn has_id(users: Seq<UserView>, id: u128) -> bool {
    exists|i: int| 0 <= i < users.len() && (#[trigger] users[i]).id == id
}

/// No two records share an identifier or an email.
pub open spec fn distinct(users: Seq<UserView>) -> bool {
    forall|i: int, j: int|
        0 <= i < j < users.len() ==> (#[trigger] users[i]).id != (#[trigger] users[j]).id
            && users[i].email != users[j].email
}

/// What looking an email up gives: the record with it, where there is one.
pub open spec fn lookup_email(users: Seq<UserView>, email: Seq<char>) -> Result<UserView, ApiError> {
    if has_email(users, email) {
        Ok(users[choose|i: int| 0 <= i < users.len() && (#[trigger] users[i]).email == email])
    } else {
        Err(ApiError::NotFound)
    }
}

/// What looking an identifier up gives: the record with it, where there is
/// one.
pub open spec fn lookup_id(users: Seq<UserView>, id: u128) -> Result<UserView, ApiError> {
    if has_id(users, id) {
        Ok(users[choose|i: int| 0 <= i < users.len() && (#[trigger] users[i]).id == id])
    } else {
        Err(ApiError::NotFound)
    }
}

/// Whether a record other than the one with identifier `id` has this email.
pub open spec fn email_taken_by_other(users: Seq<UserView>, email: Seq<char>, id: u128) -> bool {
    exists|i: int| 0 <= i < users.len() && (#[trigger] users[i]).email == email && users[i].id != id
}

/// What `create` does for each identifier, time and salt: it hashes, then
/// writes. The result, and the records afterwards.
pub open spec fn create_outcome(
    users: Seq<UserView>,
    message: UserMessageView,
    id: u128,
    now: i64,
    salt: Seq<u8>,
) -> (Result<UserView, ApiError>, Seq<UserView>) {
    match sealed(message.password, salt) {
        None => (Err(ApiError::Internal), users),
        Some(hash) => if has_email(users, message.email) || has_id(users, id) {
            (Err(ApiError::Conflict), users)
        } else {
            let user = UserView { password: hash, ..fresh_user(message, id, now) };
            (Ok(user), users.push(user))
        },
    }
}

/// The record that an update makes of `user`: new email, new hash, and
/// the time of the change.
pub open spec fn changed_user(user: UserView, email: Seq<char>, hash: Seq<char>, now: i64) -> UserView {
    UserView { email, password: hash, updated_at: Some(now), ..user }
}

/// What a change makes of one record for each time and salt: it hashes
/// the new password, then takes the new email and the time.
pub open spec fn change_outcome(user: UserView, message: UserMessageView, now: i64, salt: Seq<u8>) -> Result<
    UserView,
    ApiError,
> {
    match sealed(message.password, salt) {
        Some(hash) => Ok(changed_user(user, message.email, hash, now)),
        None => Err(ApiError::Internal),
    }
}

/// The records after each one with identifier `id` has been changed.
pub open spec fn with_changed(users: Seq<UserView>, id: u128, email: Seq<char>, hash: Seq<char>, now: i64) -> Seq<
    UserView,
> {
    Seq::new(
        users.len(),
        |i: int| if users[i].id == id { changed_user(users[i], email, hash, now) } else { users[i] },
    )
}

/// What `update` does for each time and salt: it looks the account up,
/// hashes, then writes. An account that is not there is not found,
/// whatever else was sent.
pub open spec fn update_outcome(
    users: Seq<UserView>,
    id: u128,
    message: UserMessageView,
    now: i64,
    salt: Seq<u8>,
) -> (Result<UserView, ApiError>, Seq<UserView>) {
    if !has_id(users, id) {
        (Err(ApiError::NotFound), users)
    } else {
        let i = choose|i: int| 0 <= i < users.len() && (#[trigger] users[i]).id == id;
        match change_outcome(users[i], message, now, salt) {
            Err(e) => (Err(e), users),
            Ok(changed) => if email_taken_by_other(users, message.email, id) {
                (Err(ApiError::Conflict), users)
            } else {
                (Ok(changed), with_changed(users, id, message.email, changed.password, now))
            },
        }
    }
}

/// What `delete` does: how many records it removes, and the records
/// afterwards, the others in the order they had.
pub open spec fn delete_outcome(users: Seq<UserView>, id: u128) -> (usize, Seq<UserView>) {
    if has_id(users, id) {
        let i = choose|i: int| 0 <= i < users.len() && (#[trigger] users[i]).id == id;
        (1, users.remove(i))
    } else {
        (0, users)
    }
}

/// The result of an operation as mathematics.
pub open spec fn user_result_view(res: Result<User, ApiError>) -> Result<UserView, ApiError> {
    match res {
        Ok(user) => Ok(user@),
        Err(e) => Err(e),
    }
}

/// The user records.
pub struct CredentialStore {
    users: Vec<User>,
}

impl View for CredentialStore {
    type V = Seq<UserView>;

    closed spec fn view(&self) -> Seq<UserView> {
        self.users@.map_values(|u: User| u@)
    }
}

impl CredentialStore {
    /// The store's invariant.
    pub open spec fn wf(&self) -> bool {
        distinct(self@)
    }

    /// A store without records.
    pub fn new() -> (store: CredentialStore)
        ensures
            store@ == Seq::<UserView>::empty(),
            store.wf(),
    {
        let store = CredentialStore { users: Vec::new() };
        assert(store@ =~= Seq::<UserView>::empty());
        store
    }

    /// How many records there are.
    pub fn len(&self) -> (n: usize)
        ensures
            n == self@.len(),
    {
        self.users.len()
    }

    /// A copy of the record at `index`.
    pub fn get(&self, index: usize) -> (user: Option<User>)
        ensures
            match user {
                Some(u) => index < self@.len() && u@ == self@[index as int],
                None => index >= self@.len(),
            },
    {
        if index < self.users.len() {
            Some(self.users[index].clone())
        } else {
            None
        }
    }

    fn position_of_email(&self, email: &String) -> (pos: Option<usize>)
        ensures
            match pos {
                Some(i) => i < self@.len() && self@[i as int].email == email@,
                None => !has_email(self@, email@),
            },
    {
        let mut i: usize = 0;
        while i < self.users.len()
            invariant
                i <= self.users.len(),
                self@.len() == self.users.len(),
                forall|j: int| 0 <= j < i ==> (#[trigger] self@[j]).email != email@,
            decreases self.users.len() - i,
        {
            if self.users[i].email == *email {
                return Some(i);
            }
            i += 1;
        }
        None
    }

    fn position_of_id(&self, id: u128) -> (pos: Option<usize>)
        ensures
            match pos {
                Some(i) => i < self@.len() && self@[i as int].id == id,
                None => !has_id(self@, id),
            },
    {
        let mut i: usize = 0;
        while i < self.users.len()
            invariant
                i <= self.users.len(),
                self@.len() == self.users.len(),
                forall|j: int| 0 <= j < i ==> (#[trigger] self@[j]).id != id,
            decreases self.users.len() - i,
        {
            if self.users[i].id == id {
                return Some(i);
            }
            i += 1;
        }
        None
    }

    fn email_taken(&self, email: &String, id: u128) -> (taken: bool)
        ensures
            taken == email_taken_by_other(self@, email@, id),
    {
        let mut i: usize = 0;
        while i < self.users.len()
            invariant
                i <= self.users.len(),
                self@.len() == self.users.len(),
                forall|j: int| 0 <= j < i ==> !((#[trigger] self@[j]).email == email@ && self@[j].id != id),
            decreases self.users.len() - i,
        {
            if self.users[i].id != id && self.users[i].email == *email {
                assert(self@[i as int].email == email@ && self@[i as int].id != id);
                return true;
            }
            i += 1;
        }
        false
    }
}

impl User {
    /// The record with this email.
    pub fn find_by_email(store: &CredentialStore, email: String) -> (res: Result<User, ApiError>)
        requires
            store.wf(),
        ensures
            user_result_view(res) == lookup_email(store@, email@),
            res matches Ok(user) ==> store@.contains(user@) && user@.email == email@,
    {
        match store.position_of_email(&email) {
            Some(i) => {
                proof {
                    let k = choose|k: int| 0 <= k < store@.len() && (#[trigger] store@[k]).email == email@;
                    assert(store@[i as int].email == email@);
                    if k < i {
                        assert(store@[k].email != store@[i as int].email);
                    } else if i < k {
                        assert(store@[i as int].email != store@[k].email);
                    }
                }
                Ok(store.users[i].clone())
            },
            None => Err(ApiError::NotFound),
        }
    }

    /// The record with this identifier.
    pub fn find(store: &CredentialStore, id: u128) -> (res: Result<User, ApiError>)
        requires
            store.wf(),
        ensures
            user_result_view(res) == lookup_id(store@, id),
            res matches Ok(user) ==> store@.contains(user@) && user@.id == id,
    {
        match store.position_of_id(id) {
            Some(i) => {
                proof {
                    let k = choose|k: int| 0 <= k < store@.len() && (#[trigger] store@[k]).id == id;
                    assert(store@[i as int].id == id);
                    if k < i {
                        assert(store@[k].id != store@[i as int].id);
                    } else if i < k {
                        assert(store@[i as int].id != store@[k].id);
                    }
                }
                Ok(store.users[i].clone())
            },
            None => Err(ApiError::NotFound),
        }
    }

    /// Lists the accounts that pass the filters in `params`, in the order
    /// that `sort_by` asks for, one page of them, with the number of pages
    /// that all of them fill. A number of pages that an `i64` cannot hold
    /// is given as the greatest `i64`.
    pub fn find_all(store: &CredentialStore, params: Params) -> (res: Result<(Vec<User>, i64), ApiError>)
        ensures
            res matches Ok((users, pages)) && rows_view::<User>(users@) == list_outcome::<User>(
                store@,
                user_query(params@),
            ).0 && pages == least(list_outcome::<User>(store@, user_query(params@)).1, i64::MAX as int),
            res matches Ok((users, pages)) && users@.len() <= page_size(params@.page_size),
            store@.len() <= i64::MAX ==> (res matches Ok((users, pages)) && pages == total_pages(
                selected::<User>(store@, user_query(params@).filters).len() as int,
                page_size(params@.page_size),
            )),
    {
        let query = params.to_query();
        assert(store@ =~= rows_view::<User>(store.users@));
        let (users, pages) = list(&store.users, &query);
        Ok((users, pages))
    }

    /// Creates the account for `message` with the identifier, time and
    /// salt given: hashes the password, then adds the record unless its
    /// email or identifier is taken.
    pub fn create_with(store: &mut CredentialStore, message: UserMessage, id: u128, now: i64, salt: &[u8; 32]) -> (res:
        Result<User, ApiError>)
        requires
            old(store).wf(),
        ensures
            final(store).wf(),
            (user_result_view(res), final(store)@) == create_outcome(old(store)@, message@, id, now, salt@),
            res matches Ok(user) ==> opens(user@.password, encode_utf8(message@.password)),
    {
        let mut user = User::new(message, id, now);
        match user.hash_password_with(salt) {
            Err(e) => { return Err(e); },
            Ok(()) => {},
        }
        if store.position_of_email(&user.email).is_some() || store.position_of_id(id).is_some() {
            return Err(ApiError::Conflict);
        }
        let stored = user.clone();
        store.users.push(user);
        proof {
            assert(store@ =~= old(store)@.push(stored@));
            assert forall|i: int, j: int| 0 <= i < j < store@.len() implies
                (#[trigger] store@[i]).id != (#[trigger] store@[j]).id && store@[i].email != store@[j].email
            by {
                if j == old(store)@.len() {
                    assert(old(store)@[i].id != id);
                    assert(old(store)@[i].email != stored@.email);
                }
            }
        }
        Ok(stored)
    }

    /// This record with the email and the password of `message`, changed
    /// at the time given: the password is hashed under `salt`. It is
    /// stored nowhere yet.
    pub fn changed_with(&self, message: UserMessage, now: i64, salt: &[u8; 32]) -> (res: Result<User, ApiError>)
        ensures
            user_result_view(res) == change_outcome(self@, message@, now, salt@),
            res matches Ok(user) ==> opens(user@.password, encode_utf8(message@.password)),
    {
        match seal(&message.password, salt) {
            Ok(hash) => Ok(
                User {
                    id: self.id,
                    email: message.email,
                    password: hash,
                    created_at: self.created_at,
                    updated_at: Some(now),
                },
            ),
            Err(e) => Err(e),
        }
    }

    /// This record with the email and the password of `message`, changed
    /// now: the password is hashed under a fresh random salt. It is stored
    /// nowhere yet.
    pub fn changed(&self, message: UserMessage) -> (res: Result<User, ApiError>)
        ensures
            exists|now: i64, salt: Seq<u8>|
                salt.len() == 32 && clock_time(now) && #[trigger] change_outcome(self@, message@, now, salt)
                    == user_result_view(res),
            res matches Ok(user) ==> opens(user@.password, encode_utf8(message@.password)),
    {
        let now = now_micros();
        let salt = random_bytes();
        self.changed_with(message, now, &salt)
    }

    /// Changes the email and the password of the account with identifier
    /// `id`, with the time and salt given: looks the account up, hashes the
    /// new password, then writes the record and the time of the change,
    /// unless another account has the email.
    pub fn update_with(store: &mut CredentialStore, id: u128, message: UserMessage, now: i64, salt: &[u8; 32]) -> (res:
        Result<User, ApiError>)
        requires
            old(store).wf(),
        ensures
            final(store).wf(),
            (user_result_view(res), final(store)@) == update_outcome(old(store)@, id, message@, now, salt@),
            res matches Ok(user) ==> opens(user@.password, encode_utf8(message@.password)),
    {
        let i = match store.position_of_id(id) {
            Some(i) => i,
            None => { return Err(ApiError::NotFound); },
        };
        proof {
            let before = old(store)@;
            let k = choose|k: int| 0 <= k < before.len() && (#[trigger] before[k]).id == id;
            assert(before[i as int].id == id);
            if k < i {
                assert(before[k].id != before[i as int].id);
            } else if i < k {
                assert(before[i as int].id != before[k].id);
            }
        }
        let changed = match store.users[i].changed_with(message, now, salt) {
            Ok(changed) => changed,
            Err(e) => { return Err(e); },
        };
        if store.email_taken(&changed.email, id) {
            return Err(ApiError::Conflict);
        }
        let ghost hash = changed@.password;
        let copy = changed.clone();
        store.users.set(i, changed);
        proof {
            let before = old(store)@;
            assert(copy@ == changed_user(before[i as int], message@.email, hash, now));
            assert forall|j: int| 0 <= j < before.len() implies store@[j] == with_changed(
                before,
                id,
                message@.email,
                hash,
                now,
            )[j] by {
                if j != i {
                    assert(before[j].id != before[i as int].id);
                }
            }
            assert(store@ =~= with_changed(before, id, message@.email, hash, now));
            assert forall|a: int, b: int| 0 <= a < b < store@.len() implies
                (#[trigger] store@[a]).id != (#[trigger] store@[b]).id && store@[a].email != store@[b].email
            by {
                assert(before[a].id != before[b].id && before[a].email != before[b].email);
                if a == i {
                    assert(!(before[b].email == message@.email && before[b].id != id));
                } else if b == i {
                    assert(!(before[a].email == message@.email && before[a].id != id));
                }
            }
        }
        Ok(copy)
    }

    /// Changes the email and the password of the account with identifier
    /// `id`, with a fresh random salt and the clock's time.
    pub fn update(store: &mut CredentialStore, id: u128, message: UserMessage) -> (res: Result<User, ApiError>)
        requires
            old(store).wf(),
        ensures
            final(store).wf(),
            exists|now: i64, salt: Seq<u8>|
                salt.len() == 32 && clock_time(now) && #[trigger] update_outcome(
                    old(store)@,
                    id,
                    message@,
                    now,
                    salt,
                ) == (user_result_view(res), final(store)@),
            res matches Ok(user) ==> opens(user@.password, encode_utf8(message@.password)),
            !has_id(old(store)@, id) ==> res == Err::<User, ApiError>(ApiError::NotFound),
    {
        let now = now_micros();
        let salt = random_bytes();
        User::update_with(store, id, message, now, &salt)
    }

    /// Removes the account with identifier `id`, and says how many records
    /// that removed: one, or none where there was no such account.
    pub fn delete(store: &mut CredentialStore, id: u128) -> (res: Result<usize, ApiError>)
        requires
            old(store).wf(),
        ensures
            final(store).wf(),
            res matches Ok(count) && (count, final(store)@) == delete_outcome(old(store)@, id),
            !has_id(final(store)@, id),
    {
        match store.position_of_id(id) {
            Some(i) => {
                store.users.remove(i);
                proof {
                    let before = old(store)@;
                    let k = choose|k: int| 0 <= k < before.len() && (#[trigger] before[k]).id == id;
                    assert(before[i as int].id == id);
                    assert(k == i);
                    assert(store@ =~= before.remove(i as int));
                    assert forall|a: int| 0 <= a < store@.len() implies
                        (#[trigger] store@[a]).id != id
                    by {
                        if a < i {
                            assert(before[a].id != before[i as int].id);
                        } else {
                            assert(before[i as int].id != before[a + 1].id);
                        }
                    }
                    assert forall|a: int, b: int| 0 <= a < b < store@.len() implies
                        (#[trigger] store@[a]).id != (#[trigger] store@[b]).id && store@[a].email != store@[b].email
                    by {
                        let a0 = if a < i { a } else { a + 1 };
                        let b0 = if b < i { b } else { b + 1 };
                        assert(before[a0].id != before[b0].id && before[a0].email != before[b0].email);
                    }
                }
                Ok(1)
            },
            None => Ok(0),
        }
    }

    /// Creates the account for `message`, with a fresh random identifier
    /// and salt and the clock's time.
    pub fn create(store: &mut CredentialStore, message: UserMessage) -> (res: Result<User, ApiError>)
        requires
            old(store).wf(),
        ensures
            final(store).wf(),
            exists|id: u128, now: i64, salt: Seq<u8>|
                salt.len() == 32 && drawn_id(id) && clock_time(now) && #[trigger] create_outcome(
                    old(store)@,
                    message@,
                    id,
                    now,
                    salt,
                ) == (user_result_view(res), final(store)@),
            res matches Ok(user) ==> opens(user@.password, encode_utf8(message@.password)),
            has_email(old(store)@, message@.email) ==> res is Err,
    {
        let id = random_uuid();
        let now = now_micros();
        let salt = random_bytes();
        User::create_with(store, message, id, now, &salt)
    }
}

/// An account that was just created is found under its email and under
/// its identifier, and what it stores as the password is not the password
/// that was sent.
pub proof fn lemma_created_account_is_found(
    users: Seq<UserView>,
    message: UserMessageView,
    id: u128,
    now: i64,
    salt: Seq<u8>,
)
    requires
        distinct(users),
        create_outcome(users, message, id, now, salt).0 is Ok,
    ensures
        lookup_email(create_outcome(users, message, id, now, salt).1, message.email) == create_outcome(
            users,
            message,
            id,
            now,
            salt,
        ).0,
        lookup_id(create_outcome(users, message, id, now, salt).1, id) == create_outcome(
            users,
            message,
            id,
            now,
            salt,
        ).0,
        create_outcome(users, message, id, now, salt).0 matches Ok(user) && user.password != message.password,
        distinct(create_outcome(users, message, id, now, salt).1),
{
    let after = create_outcome(users, message, id, now, salt).1;
    let last = users.len() as int;
    assert(after[last].email == message.email && after[last].id == id);
    let by_email = choose|k: int| 0 <= k < after.len() && (#[trigger] after[k]).email == message.email;
    if by_email != last {
        assert(users[by_email].email == message.email);
    }
    let by_id = choose|k: int| 0 <= k < after.len() && (#[trigger] after[k]).id == id;
    if by_id != last {
        assert(users[by_id].id == id);
    }
    assert forall|i: int, j: int| 0 <= i < j < after.len() implies
        (#[trigger] after[i]).id != (#[trigger] after[j]).id && after[i].email != after[j].email
    by {
        if j == last {
            assert(users[i].id != id && users[i].email != message.email);
        } else {
            assert(users[i].id != users[j].id && users[i].email != users[j].email);
        }
    }
}

} // verus!
