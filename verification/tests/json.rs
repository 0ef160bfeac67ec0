use ruleco::json::ErrorResponse;
use ruleco::json::Request;
use ruleco::json::Response;
use ruleco::json::is_sign_in;

#[test]
fn test_response_null() {
    let response = Response::build(1, None);
    let string = String::from_utf8(response.to_bytes()).unwrap();
    assert_eq!(string, "{\"jsonrpc\":\"2.0\",\"id\":1,\"result\":null}")
}

#[test]
fn test_response_number() {
    let response = Response::build(1, Some(123));
    let string = String::from_utf8(response.to_bytes()).unwrap();
    assert_eq!(string, "{\"jsonrpc\":\"2.0\",\"id\":1,\"result\":123}")
}

#[test]
fn test_request_bytes() {
    let request = Request::build(0, b"sign_in".to_vec());
    let string = String::from_utf8(request.to_bytes()).unwrap();
    assert_eq!(string, "{\"jsonrpc\":\"2.0\",\"id\":0,\"method\":\"sign_in\"}")
}

#[test]
fn test_request_escapes_method() {
    let request = Request::build(7, b"a\"b\\c\nd".to_vec());
    let string = String::from_utf8(request.to_bytes()).unwrap();
    assert_eq!(string, "{\"jsonrpc\":\"2.0\",\"id\":7,\"method\":\"a\\\"b\\\\c\\nd\"}");
    let request = Request::build(7, vec![0x01u8]);
    let string = String::from_utf8(request.to_bytes()).unwrap();
    assert_eq!(string, "{\"jsonrpc\":\"2.0\",\"id\":7,\"method\":\"\\u0001\"}");
}

#[test]
fn test_error_response_bytes() {
    let response = ErrorResponse::build(0, -32090, b"Component not signed in yet!".to_vec());
    let string = String::from_utf8(response.to_bytes()).unwrap();
    assert_eq!(
        string,
        "{\"jsonrpc\":\"2.0\",\"id\":0,\"error\":{\"code\":-32090,\"message\":\"Component not signed in yet!\"}}"
    )
}

#[test]
fn test_decimal_extremes() {
    let response = ErrorResponse::build(65535, -32768, b"m".to_vec());
    let string = String::from_utf8(response.to_bytes()).unwrap();
    assert_eq!(
        string,
        "{\"jsonrpc\":\"2.0\",\"id\":65535,\"error\":{\"code\":-32768,\"message\":\"m\"}}"
    );
    let response = Response::build(0, Some(u64::MAX));
    let string = String::from_utf8(response.to_bytes()).unwrap();
    assert_eq!(
        string,
        "{\"jsonrpc\":\"2.0\",\"id\":0,\"result\":18446744073709551615}"
    );
}

#[test]
fn test_is_sign_in_accepts_a_sign_in_request() {
    let request = Request::build(0, b"sign_in".to_vec());
    assert!(is_sign_in(&request.to_bytes()));
    assert!(is_sign_in(b"{\"jsonrpc\":\"2.0\",\"id\":0,\"method\":\"sign_in\"}"));
}

#[test]
fn test_is_sign_in_rejects_everything_else() {
    assert!(!is_sign_in(b"{\"jsonrpc\":\"2.0\",\"id\":0,\"method\":\"sign_out\"}"));
    assert!(!is_sign_in(b"{\"jsonrpc\":\"2.0\",\"id\":0}"));
    assert!(!is_sign_in(b"{\"id\":0,\"method\":\"sign_in\"}"));
    assert!(!is_sign_in(b"{\"jsonrpc\":\"2.0\",\"id\":99999,\"method\":\"sign_in\"}"));
    assert!(!is_sign_in(b"not json at all"));
    assert!(!is_sign_in(b""));
}

#[test]
fn test_parse_request_round_trip() {
    let request = Request::build(42, b"pong".to_vec());
    let parsed = ruleco::json::parse_request(&request.to_bytes()).unwrap();
    assert_eq!(parsed.id, 42);
    assert_eq!(parsed.method, b"pong".to_vec());
    assert!(ruleco::json::parse_request(b"[1,2,3]").is_none());
}
