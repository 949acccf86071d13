use auth_core::error::AuthError;

const ALL: [AuthError; 9] = [
    AuthError::ValidationError,
    AuthError::WrongCredentials,
    AuthError::Unauthorized,
    AuthError::DuplicateAccount,
    AuthError::CryptoFailure,
    AuthError::StoreError,
    AuthError::InvalidToken,
    AuthError::TokenExpired,
    AuthError::MalformedHashRecord,
];

#[test]
fn http_status_of_each_error() {
    assert_eq!(AuthError::ValidationError.http_status(), 400);
    assert_eq!(AuthError::WrongCredentials.http_status(), 401);
    assert_eq!(AuthError::Unauthorized.http_status(), 401);
    assert_eq!(AuthError::InvalidToken.http_status(), 401);
    assert_eq!(AuthError::TokenExpired.http_status(), 401);
    assert_eq!(AuthError::DuplicateAccount.http_status(), 409);
    assert_eq!(AuthError::CryptoFailure.http_status(), 500);
    assert_eq!(AuthError::StoreError.http_status(), 500);
    assert_eq!(AuthError::MalformedHashRecord.http_status(), 500);
}

#[test]
fn client_never_learns_why_a_token_failed() {
    assert_eq!(AuthError::InvalidToken.client_facing(), AuthError::Unauthorized);
    assert_eq!(AuthError::TokenExpired.client_facing(), AuthError::Unauthorized);
    assert_eq!(AuthError::MalformedHashRecord.client_facing(), AuthError::CryptoFailure);
}

#[test]
fn other_errors_are_shown_as_they_are() {
    for error in [
        AuthError::ValidationError,
        AuthError::WrongCredentials,
        AuthError::Unauthorized,
        AuthError::DuplicateAccount,
        AuthError::CryptoFailure,
        AuthError::StoreError,
    ] {
        assert_eq!(error.client_facing(), error);
    }
}

#[test]
fn what_is_shown_keeps_the_status() {
    for error in ALL {
        assert_eq!(error.client_facing().http_status(), error.http_status());
        assert_eq!(error.client_facing().client_facing(), error.client_facing());
    }
}
