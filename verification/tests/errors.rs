use auth_core::error::ApiError;

#[test]
fn each_error_has_its_status() {
    assert_eq!(ApiError::InvalidToken.status_code(), 403);
    assert_eq!(ApiError::TokenExpired.status_code(), 403);
    assert_eq!(ApiError::InvalidCredentials.status_code(), 401);
    assert_eq!(ApiError::Unauthorized.status_code(), 401);
    assert_eq!(ApiError::NotFound.status_code(), 404);
    assert_eq!(ApiError::Conflict.status_code(), 409);
    assert_eq!(ApiError::Internal.status_code(), 500);
}

#[test]
fn each_error_has_its_text() {
    assert_eq!(ApiError::InvalidToken.message(), "Invalid token");
    assert_eq!(ApiError::TokenExpired.message(), "Token expired");
    assert_eq!(ApiError::InvalidCredentials.message(), "Credentials not valid!");
    assert_eq!(ApiError::Unauthorized.message(), "Unauthorized");
    assert_eq!(ApiError::NotFound.message(), "Not found");
    assert_eq!(ApiError::Conflict.message(), "Already exists");
    assert_eq!(ApiError::Internal.message(), "Internal server error");
}

#[test]
fn expired_and_invalid_tokens_differ_in_text_only() {
    assert_eq!(ApiError::InvalidToken.status_code(), ApiError::TokenExpired.status_code());
    assert_ne!(ApiError::InvalidToken.message(), ApiError::TokenExpired.message());
}
