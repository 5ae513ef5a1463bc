use emtm_verify::error::VerifierError;
use emtm_verify::reply::{
    check_status, connection_failed, is_success, read_body, FORM_CONTENT_TYPE, OCR_URL,
};

#[test]
fn success_status_lets_the_body_be_read() {
    assert_eq!(check_status(200, "OK"), Ok(()));
    assert_eq!(check_status(201, "Created"), Ok(()));
    assert_eq!(check_status(204, "No Content"), Ok(()));
    assert_eq!(check_status(299, "<unknown status code>"), Ok(()));
}

#[test]
fn success_is_the_class_from_200_to_299() {
    for status in 0..=u16::MAX {
        assert_eq!(is_success(status), (200..300).contains(&status));
        assert_eq!(check_status(status, "").is_ok(), (200..300).contains(&status));
    }
}

#[test]
fn other_status_fails_with_the_status_code() {
    assert_eq!(
        check_status(404, "Not Found"),
        Err(VerifierError::ApiServerError("Server response code 404 Not Found".to_string()))
    );
    assert_eq!(
        check_status(500, "Internal Server Error"),
        Err(VerifierError::ApiServerError(
            "Server response code 500 Internal Server Error".to_string()
        ))
    );
    assert_eq!(
        check_status(199, "<unknown status code>"),
        Err(VerifierError::ApiServerError(
            "Server response code 199 <unknown status code>".to_string()
        ))
    );
    assert_eq!(
        check_status(300, "Multiple Choices"),
        Err(VerifierError::ApiServerError(
            "Server response code 300 Multiple Choices".to_string()
        ))
    );
    assert_eq!(
        check_status(0, ""),
        Err(VerifierError::ApiServerError("Server response code 0 ".to_string()))
    );
}

#[test]
fn body_is_read_as_utf8() {
    assert_eq!(read_body(Ok(b"{\"ret\":0}".to_vec())), Ok("{\"ret\":0}".to_string()));
    assert_eq!(read_body(Ok("中山大学".as_bytes().to_vec())), Ok("中山大学".to_string()));
    assert_eq!(read_body(Ok(vec![])), Ok(String::new()));
}

#[test]
fn invalid_utf8_is_replaced() {
    assert_eq!(read_body(Ok(vec![b'a', 0xff, b'b'])), Ok("a\u{fffd}b".to_string()));
}

#[test]
fn unreadable_body_fails_with_server_response_error() {
    assert_eq!(
        read_body(Err("truncated".to_string())),
        Err(VerifierError::ServerResponseError("truncated".to_string()))
    );
}

#[test]
fn unreachable_service_fails_with_connection_error() {
    assert_eq!(
        connection_failed("dns".to_string()),
        VerifierError::ApiServerConnectionError("dns".to_string())
    );
}

#[test]
fn endpoint_and_content_type() {
    assert_eq!(OCR_URL, "https://api.ai.qq.com/fcgi-bin/ocr/ocr_bcocr");
    assert_eq!(FORM_CONTENT_TYPE, "application/x-www-form-urlencoded");
}
