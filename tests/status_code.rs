use forwarded_http::StatusCode;

#[test]
fn codes_and_classes() {
    assert_eq!(StatusCode::Accepted.code(), 202);
    assert_eq!(StatusCode::from(202u16), StatusCode::Accepted);
    assert_eq!(u16::from(StatusCode::NotFound), 404);
    assert!(StatusCode::Continue.is_informational());
    assert!(StatusCode::OK.is_success());
    assert!(StatusCode::SeeOther.is_redirection());
    assert!(StatusCode::ImATeapot.is_client_error());
    assert!(StatusCode::BadGateway.is_server_error());
    assert!(!StatusCode::BadGateway.is_client_error());
    assert!(StatusCode::OtherInvalidStatusCode(299).is_success());
}

#[test]
fn unknown_codes_are_kept() {
    assert_eq!(StatusCode::from(999u16), StatusCode::OtherInvalidStatusCode(999));
    assert_eq!(StatusCode::from(999u16).code(), 999);
    for code in 0..=u16::MAX {
        assert_eq!(StatusCode::from(code).code(), code);
    }
}

#[test]
fn canonical_reasons() {
    assert_eq!(StatusCode::OK.canonical_reason(), "OK");
    assert_eq!(StatusCode::ImATeapot.canonical_reason(), "I'm a teapot");
    assert_eq!(
        StatusCode::HttpVersionNotSupported.canonical_reason(),
        "HTTP Version Not Supported"
    );
    assert_eq!(
        StatusCode::OtherInvalidStatusCode(999).canonical_reason(),
        "Other invalid status with code 999"
    );
    assert_eq!(
        StatusCode::OtherInvalidStatusCode(0).canonical_reason(),
        "Other invalid status with code 0"
    );
    assert_eq!(
        StatusCode::OtherInvalidStatusCode(65535).canonical_reason(),
        "Other invalid status with code 65535"
    );
}
