use auth_core::error::ApiError;
use auth_core::session::{Session, SessionStatus};

#[test]
fn new_session_is_anonymous() {
    let session = Session::new();
    assert_eq!(session.user_id, None);
    assert_eq!(session.status, SessionStatus::Unchanged);
    assert_eq!(session.current_user(), Err(ApiError::Unauthorized));
}

#[test]
fn restored_session_keeps_its_user() {
    let session = Session::restore(Some(42));
    assert_eq!(session.current_user(), Ok(42));
    assert_eq!(session.status, SessionStatus::Unchanged);
    assert_eq!(Session::restore(None), Session::new());
}

#[test]
fn sign_in_binds_and_renews() {
    let mut session = Session::new();
    session.sign_in(7);
    assert_eq!(session.current_user(), Ok(7));
    assert_eq!(session.status, SessionStatus::Renewed);
}

#[test]
fn sign_in_over_a_bound_session_overwrites_and_renews() {
    let mut session = Session::restore(Some(7));
    session.sign_in(8);
    assert_eq!(session.current_user(), Ok(8));
    assert_eq!(session.status, SessionStatus::Renewed);
}

#[test]
fn sign_out_removes_the_binding() {
    let mut session = Session::restore(Some(7));
    assert_eq!(session.sign_out(), Ok(()));
    assert_eq!(session.user_id, None);
    assert_eq!(session.status, SessionStatus::Purged);
    assert_eq!(session.current_user(), Err(ApiError::Unauthorized));
}

#[test]
fn sign_out_of_an_anonymous_session_is_unauthorized() {
    let mut session = Session::new();
    assert_eq!(session.sign_out(), Err(ApiError::Unauthorized));
    assert_eq!(session, Session::new());
}

#[test]
fn second_sign_out_is_unauthorized() {
    let mut session = Session::new();
    session.sign_in(7);
    assert_eq!(session.sign_out(), Ok(()));
    assert_eq!(session.sign_out(), Err(ApiError::Unauthorized));
    assert_eq!(session.status, SessionStatus::Purged);
}
