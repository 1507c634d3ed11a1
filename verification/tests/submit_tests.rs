use pusheventhub::AzureError;
use pusheventhub::UnexpectedHTTPResult;
use pusheventhub::build_event_hub_url;
use pusheventhub::classify_response;
use pusheventhub::decimal::i64_to_dec;
use pusheventhub::prepare_submission;

#[test]
fn builds_the_event_hub_url() {
    assert_eq!(
        build_event_hub_url("ns", "hub"),
        "https://ns.servicebus.windows.net/hub/messages"
    );
}

#[test]
fn created_status_is_success() {
    assert!(classify_response(201, "").is_ok());
}

#[test]
fn unauthorized_status_is_structured_failure() {
    match classify_response(403, "Unauthorized") {
        Err(AzureError::UnexpectedHTTPResult(u)) => {
            assert_eq!(u.expected, 201);
            assert_eq!(u.received, 403);
            assert_eq!(u.body, "Unauthorized");
        }
        other => panic!("expected an unexpected-result failure, got {:?}", other),
    }
}

#[test]
fn unexpected_http_result_keeps_fields() {
    let u = UnexpectedHTTPResult::new(201, 500, "boom");
    assert_eq!(u, UnexpectedHTTPResult::new(201, 500, "boom"));
    assert_eq!(u.expected, 201);
    assert_eq!(u.received, 500);
    assert_eq!(u.body, "boom");
}

#[test]
fn prepares_a_submission() {
    let req = prepare_submission("NS", "Hub", "myPolicy", "mykey", 0, 3600).unwrap();
    // URL parsing normalizes: the host is lowercased, the path is kept.
    assert_eq!(req.url, "https://ns.servicebus.windows.net/Hub/messages");
    assert_eq!(req.content_length, 0);
    assert!(req
        .authorization
        .starts_with("SharedAccessSignature sr=https%3A%2F%2Fns.servicebus.windows.net%2FHub%2Fmessages&sig="));
    assert!(req.authorization.ends_with("&skn=myPolicy"));
}

#[test]
fn bad_namespace_is_a_parse_error() {
    match prepare_submission("bad ns", "hub", "p", "k", 10, 3600) {
        Err(AzureError::ParseError(_)) => {}
        other => panic!("expected a parse error, got {:?}", other),
    }
}

#[test]
fn decimal_rendering_is_exact() {
    assert_eq!(i64_to_dec(0), b"0");
    assert_eq!(i64_to_dec(7), b"7");
    assert_eq!(i64_to_dec(1600003600), b"1600003600");
    assert_eq!(i64_to_dec(-5), b"-5");
    assert_eq!(i64_to_dec(i64::MAX), b"9223372036854775807");
    assert_eq!(i64_to_dec(i64::MIN), b"-9223372036854775808");
}
