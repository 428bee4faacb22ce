use bingo::error::Error;

#[test]
fn errors_map_to_status_and_message() {
    assert_eq!(Error::InvalidCredentials.status(), 401);
    assert_eq!(Error::InvalidCredentials.message(), "Invalid credentials");
    assert_eq!(Error::BadRequest("nope".to_string()).status(), 400);
    assert_eq!(Error::BadRequest("nope".to_string()).message(), "nope");
    assert_eq!(Error::NotFound.status(), 404);
    assert_eq!(Error::NotFound.message(), "Not found");
    assert_eq!(Error::InternalServer.status(), 500);
    assert_eq!(Error::InternalServer.message(), "Internal server error");
}

#[test]
fn storage_errors_distinguish_missing_rows() {
    assert!(matches!(Error::storage(true), Error::NotFound));
    assert!(matches!(Error::storage(false), Error::InternalServer));
}
