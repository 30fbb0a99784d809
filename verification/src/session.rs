//! The session of one client: which account it is bound to, if any, and
//! what the session store has to do with its handle once the request is
//! answered.
//!
//! A session is anonymous or bound to one account. Signing in binds it
//! and asks for a new handle; signing out removes the binding.

use vstd::prelude::*;
use crate::error::ApiError;

verus! {

/// What the session store has to do with the session's handle.
#[derive(Debug, Clone, Copy, PartialEq, Eq, Structural)]
pub enum SessionStatus {
    /// Nothing: the session is as it was loaded.
    Unchanged,
    /// Write the changed state under the same handle.
    Changed,
    /// Issue a new handle for the state and drop the old one.
    Renewed,
    /// Drop the handle and what is stored under it.
    Purged,
}

/// The session of one client.
#[derive(Debug, Clone, Copy, PartialEq, Eq)]
pub struct Session {
    /// The account that the session is bound to.
    pub user_id: Option<u128>,
    /// What is owed to the session store.
    pub status: SessionStatus,
}

/// The session after a sign-in of the account `user_id`.
pub open spec fn signed_in(user_id: u128) -> Session {
    Session { user_id: Some(user_id), status: SessionStatus::Renewed }
}

/// The session after a sign-out.
pub open spec fn signed_out() -> Session {
    Session { user_id: None, status: SessionStatus::Purged }
}

/// What a sign-out does and reports: it is refused where no account is
/// bound.
pub open spec fn sign_out_outcome(session: Session) -> (Result<(), ApiError>, Session) {
    match session.user_id {
        Some(_) => (Ok(()), signed_out()),
        None => (Err(ApiError::Unauthorized), session),
    }
}

/// Who the session stands for.
pub open spec fn identity(session: Session) -> Result<u128, ApiError> {
    match session.user_id {
        Some(id) => Ok(id),
        None => Err(ApiError::Unauthorized),
    }
}

impl Session {
    /// An anonymous session.
    pub fn new() -> (session: Session)
        ensures
            session == (Session { user_id: None, status: SessionStatus::Unchanged }),
    {
        Session { user_id: None, status: SessionStatus::Unchanged }
    }

    /// The session as the session store held it.
    pub fn restore(user_id: Option<u128>) -> (session: Session)
        ensures
            session == (Session { user_id, status: SessionStatus::Unchanged }),
    {
        Session { user_id, status: SessionStatus::Unchanged }
    }

    /// Binds the session to `user_id`, whatever it was bound to, and asks
    /// for a new handle.
    pub fn sign_in(&mut self, user_id: u128)
        ensures
            *final(self) == signed_in(user_id),
    {
        self.user_id = Some(user_id);
        self.status = SessionStatus::Renewed;
    }

    /// Removes the binding. A session that is bound to no account is
    /// refused, and left as it was.
    pub fn sign_out(&mut self) -> (res: Result<(), ApiError>)
        ensures
            (res, *final(self)) == sign_out_outcome(*old(self)),
    {
        match self.user_id {
            Some(_) => {
                self.user_id = None;
                self.status = SessionStatus::Purged;
                Ok(())
            },
            None => Err(ApiError::Unauthorized),
        }
    }

    /// The account that the session is bound to.
    pub fn current_user(&self) -> (res: Result<u128, ApiError>)
        ensures
            res == identity(*self),
    {
        match self.user_id {
            Some(id) => Ok(id),
            None => Err(ApiError::Unauthorized),
        }
    }
}

/// The life of a session: after a sign-in it stands for that account and
/// is owed a new handle, whatever it was before; a sign-out then succeeds
/// and leaves it anonymous; and a sign-out of an anonymous session is
/// refused.
pub proof fn lemma_session_life(before: Session, user_id: u128)
    ensures
        identity(signed_in(user_id)) == Ok::<u128, ApiError>(user_id),
        signed_in(user_id).status == SessionStatus::Renewed,
        sign_out_outcome(signed_in(user_id)) == (Ok::<(), ApiError>(()), signed_out()),
        identity(signed_out()) == Err::<u128, ApiError>(ApiError::Unauthorized),
        sign_out_outcome(signed_out()).0 == Err::<(), ApiError>(ApiError::Unauthorized),
        before.user_id is None ==> sign_out_outcome(before) == (Err::<(), ApiError>(ApiError::Unauthorized), before),
{
}

} // verus!
