use pusheventhub::generate_signature;
use pusheventhub::generate_signature_at;
use pusheventhub::percent_decode;
use pusheventhub::percent_encode_form_urlencoded;
use pusheventhub::percent_encode_http_value;

const FIXTURE_URL: &str = "https://ns.servicebus.windows.net/hub/messages";
const FIXTURE_TIME: i64 = 1_600_000_000;

fn sig_field(token: &str) -> String {
    let start = token.find("&sig=").expect("token has a sig field") + "&sig=".len();
    let end = token[start..].find('&').expect("sig field is delimited") + start;
    token[start..end].to_string()
}

fn se_field(token: &str) -> i64 {
    let start = token.find("&se=").expect("token has an se field") + "&se=".len();
    let end = token[start..].find('&').expect("se field is delimited") + start;
    token[start..end].parse().expect("se field is an integer")
}

#[test]
fn fixture_token() {
    let token = generate_signature_at("myPolicy", "mykey", FIXTURE_URL, 3600, FIXTURE_TIME);
    assert_eq!(
        token,
        "SharedAccessSignature sr=https%3A%2F%2Fns.servicebus.windows.net%2Fhub%2Fmessages\
         &sig=tzAGkyiPu37wYPIDaD7501EVHMFzXzN5%2FK13k8zpjQs%3D&se=1600003600&skn=myPolicy"
    );
}

#[test]
fn signing_is_deterministic() {
    let a = generate_signature_at("myPolicy", "mykey", FIXTURE_URL, 3600, FIXTURE_TIME);
    let b = generate_signature_at("myPolicy", "mykey", FIXTURE_URL, 3600, FIXTURE_TIME);
    assert_eq!(a, b);
}

#[test]
fn key_change_changes_sig() {
    let a = generate_signature_at("myPolicy", "mykey", FIXTURE_URL, 3600, FIXTURE_TIME);
    let b = generate_signature_at("myPolicy", "mzkey", FIXTURE_URL, 3600, FIXTURE_TIME);
    assert_ne!(sig_field(&a), sig_field(&b));
    assert_eq!(se_field(&a), se_field(&b));
}

#[test]
fn zero_ttl_expires_now() {
    let token = generate_signature_at("myPolicy", "mykey", FIXTURE_URL, 0, FIXTURE_TIME);
    assert_eq!(se_field(&token), FIXTURE_TIME);
}

#[test]
fn later_signing_increases_se() {
    let a = generate_signature_at("myPolicy", "mykey", FIXTURE_URL, 60, FIXTURE_TIME);
    let b = generate_signature_at("myPolicy", "mykey", FIXTURE_URL, 60, FIXTURE_TIME + 5);
    assert_eq!(se_field(&a), FIXTURE_TIME + 60);
    assert_eq!(se_field(&b), FIXTURE_TIME + 65);
    assert!(se_field(&b) > se_field(&a));
}

#[test]
fn clock_signature_has_plausible_se() {
    let token = generate_signature("myPolicy", "mykey", FIXTURE_URL, 3600);
    // The sandbox clock is well past 2020; a broken clock reading would show here.
    assert!(se_field(&token) > FIXTURE_TIME);
    assert!(token.starts_with("SharedAccessSignature sr="));
    assert!(token.ends_with("&skn=myPolicy"));
}

#[test]
fn http_value_profile_escapes_url() {
    assert_eq!(
        percent_encode_http_value(FIXTURE_URL),
        "https%3A%2F%2Fns.servicebus.windows.net%2Fhub%2Fmessages"
    );
}

#[test]
fn profiles_differ() {
    // `+` passes the header-value profile but not the form profile;
    // `*` passes the form profile but not the header-value profile.
    assert_eq!(percent_encode_http_value("a+b*c= /"), "a+b%2Ac%3D%20%2F");
    assert_eq!(percent_encode_form_urlencoded("a+b*c= /"), "a%2Bb*c%3D%20%2F");
    // A base64 signature is escaped the way the token needs.
    assert_eq!(
        percent_encode_form_urlencoded("tzA/K13k8zpjQs="),
        "tzA%2FK13k8zpjQs%3D"
    );
}

#[test]
fn decode_inverts_encode() {
    let inputs = ["https://ns.servicebus.windows.net/hub/messages", "a+b*c= /%", "", "100%"];
    for s in inputs {
        let http = percent_encode_http_value(s);
        assert_eq!(percent_decode(&http), s.as_bytes());
        assert_eq!(percent_encode_http_value(&String::from_utf8(percent_decode(&http)).unwrap()), http);
        let form = percent_encode_form_urlencoded(s);
        assert_eq!(percent_decode(&form), s.as_bytes());
        assert_eq!(percent_encode_form_urlencoded(&String::from_utf8(percent_decode(&form)).unwrap()), form);
    }
}

#[test]
fn decode_handles_stray_bytes() {
    assert_eq!(percent_decode("a%20b%2Fc"), b"a b/c");
    assert_eq!(percent_decode("a%2fb"), b"a/b");
    assert_eq!(percent_decode("100%"), b"100%");
    assert_eq!(percent_decode("%zz%2"), b"%zz%2");
}

#[test]
fn pre_epoch_expiry_renders_signed() {
    let token = generate_signature_at("myPolicy", "mykey", FIXTURE_URL, 0, -3600);
    assert_eq!(se_field(&token), -3600);
}

#[test]
fn decode_can_yield_non_utf8_bytes() {
    assert_eq!(percent_decode("%FF%00"), [0xFF, 0x00]);
}

#[test]
fn non_ascii_input_is_escaped_per_byte() {
    // U+00E9 is the two UTF-8 bytes C3 A9.
    assert_eq!(percent_encode_http_value("caf\u{e9}"), "caf%C3%A9");
}
