use nanofish::StatusCode;

#[test]
fn test_from_u16_known_codes() {
    // Test a few known codes using From
    let code: StatusCode = 200_u16.into();
    assert_eq!(code, StatusCode::OK);

    let code: StatusCode = 404_u16.into();
    assert_eq!(code, StatusCode::NotFound);

    let code: StatusCode = 500_u16.into();
    assert_eq!(code, StatusCode::InternalServerError);

    let code: StatusCode = 100_u16.into();
    assert_eq!(code, StatusCode::Continue);

    let code: StatusCode = 307_u16.into();
    assert_eq!(code, StatusCode::TemporaryRedirect);
}

#[test]
fn test_from_u16_unknown_code() {
    // Test unknown codes using From
    let code: StatusCode = 999_u16.into();
    assert_eq!(code, StatusCode::Other(999));
    let code: StatusCode = 150_u16.into();
    assert_eq!(code, StatusCode::Other(150));
}

#[test]
fn test_text() {
    assert_eq!(StatusCode::OK.text(), "OK");
    assert_eq!(StatusCode::NotFound.text(), "Not Found");
    assert_eq!(
        StatusCode::InternalServerError.text(),
        "Internal Server Error"
    );
    assert_eq!(StatusCode::BadRequest.text(), "Bad Request");
    assert_eq!(StatusCode::TemporaryRedirect.text(), "Temporary Redirect");
}

#[test]
fn test_enum_values_match_code() {
    // Ensure each variant maps back to its HTTP code
    assert_eq!(StatusCode::OK.as_u16(), 200);
    assert_eq!(StatusCode::NotFound.as_u16(), 404);
    assert_eq!(StatusCode::InternalServerError.as_u16(), 500);
    assert_eq!(StatusCode::Continue.as_u16(), 100);
    assert_eq!(StatusCode::TemporaryRedirect.as_u16(), 307);
}

#[test]
fn test_is_success() {
    assert!(StatusCode::OK.is_success());
    assert!(StatusCode::Created.is_success());
    assert!(StatusCode::Accepted.is_success());
    assert!(StatusCode::NoContent.is_success());

    assert!(!StatusCode::Continue.is_success());
    assert!(!StatusCode::NotFound.is_success());
    assert!(!StatusCode::InternalServerError.is_success());
    assert!(!StatusCode::MovedPermanently.is_success());
}

#[test]
fn test_is_client_error() {
    assert!(StatusCode::BadRequest.is_client_error());
    assert!(StatusCode::Unauthorized.is_client_error());
    assert!(StatusCode::Forbidden.is_client_error());
    assert!(StatusCode::NotFound.is_client_error());
    assert!(StatusCode::MethodNotAllowed.is_client_error());

    assert!(!StatusCode::OK.is_client_error());
    assert!(!StatusCode::Continue.is_client_error());
    assert!(!StatusCode::InternalServerError.is_client_error());
    assert!(!StatusCode::MovedPermanently.is_client_error());
}

#[test]
fn test_is_server_error() {
    assert!(StatusCode::InternalServerError.is_server_error());
    assert!(StatusCode::NotImplemented.is_server_error());
    assert!(StatusCode::BadGateway.is_server_error());
    assert!(StatusCode::ServiceUnavailable.is_server_error());
    assert!(StatusCode::GatewayTimeout.is_server_error());

    assert!(!StatusCode::OK.is_server_error());
    assert!(!StatusCode::Continue.is_server_error());
    assert!(!StatusCode::NotFound.is_server_error());
    assert!(!StatusCode::MovedPermanently.is_server_error());
}

#[test]
fn test_try_from_str_valid() {
    // Test valid status code strings
    let code: StatusCode = StatusCode::parse_code("200").unwrap();
    assert_eq!(code, StatusCode::OK);

    let code: StatusCode = StatusCode::parse_code("404").unwrap();
    assert_eq!(code, StatusCode::NotFound);

    let code: StatusCode = StatusCode::parse_code("500").unwrap();
    assert_eq!(code, StatusCode::InternalServerError);

    let code: StatusCode = StatusCode::parse_code("100").unwrap();
    assert_eq!(code, StatusCode::Continue);
}

#[test]
fn test_try_from_str_invalid() {
    // Only non-numeric/invalid strings should error
    let result: Result<StatusCode, _> = StatusCode::parse_code("abc");
    assert!(result.is_err());

    let result: Result<StatusCode, _> = StatusCode::parse_code("");
    assert!(result.is_err());

    let result: Result<StatusCode, _> = StatusCode::parse_code("12345");
    assert_eq!(result.unwrap(), StatusCode::Other(12345));

    // Numeric strings always succeed, even if unknown
    let result: Result<StatusCode, _> = StatusCode::parse_code("999");
    assert_eq!(result.unwrap(), StatusCode::Other(999));
    let result: Result<StatusCode, _> = StatusCode::parse_code("150");
    assert_eq!(result.unwrap(), StatusCode::Other(150));
}

#[test]
fn test_try_from_u16_valid() {
    // Test valid status codes
    let code: StatusCode = 200_u16.into();
    assert_eq!(code, StatusCode::OK);

    let code: StatusCode = 404_u16.into();
    assert_eq!(code, StatusCode::NotFound);

    let code: StatusCode = 500_u16.into();
    assert_eq!(code, StatusCode::InternalServerError);

    let code: StatusCode = 100_u16.into();
    assert_eq!(code, StatusCode::Continue);

    let code: StatusCode = 307_u16.into();
    assert_eq!(code, StatusCode::TemporaryRedirect);
}
