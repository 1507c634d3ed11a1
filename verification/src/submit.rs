//! Event submission: the target URL, the request a caller must issue, and
//! the classification of the HTTP response.
//!
//! The transport itself (one streamed HTTPS POST) is the caller's: this
//! module prepares everything the request needs and decides what a response
//! status means.

use crate::signer::generate_signature;
use crate::signer::sas_expiry;
use crate::signer::sas_token;
use vstd::prelude::*;
use vstd::string::StringExecFns;
use vstd::string::StringSliceAdditionalSpecFns;
use vstd::utf8::encode_utf8;

verus! {

#[verifier::external_type_specification]
#[verifier::external_body]
pub struct ExParseError(url::ParseError);

/// The one HTTP status on which a submission counts as accepted: 201 Created.
pub const CREATED_STATUS: u16 = 201;

/// A response whose status was not the expected one, with the body text kept
/// for diagnosis.
#[derive(Debug, Clone, PartialEq)]
pub struct UnexpectedHTTPResult {
    pub expected: u16,
    pub received: u16,
    pub body: String,
}

impl UnexpectedHTTPResult {
    pub fn new(expected: u16, received: u16, body: &str) -> (r: UnexpectedHTTPResult)
        ensures
            r.expected == expected,
            r.received == received,
            r.body@ == body@,
    {
        UnexpectedHTTPResult { expected, received, body: body.to_owned() }
    }
}

/// Everything that can go wrong during one submission attempt.
#[derive(Debug)]
pub enum AzureError {
    /// The namespace or hub name made a URL that does not parse.
    ParseError(url::ParseError),
    /// An I/O failure while reading the response, as text.
    IOError(String),
    /// A transport failure (connection, DNS, TLS), as text.
    HyperError(String),
    /// The endpoint answered with an unexpected status.
    UnexpectedHTTPResult(UnexpectedHTTPResult),
}

impl From<url::ParseError> for AzureError {
    fn from(pe: url::ParseError) -> (r: Self) {
        AzureError::ParseError(pe)
    }
}

impl vstd::std_specs::convert::FromSpecImpl<url::ParseError> for AzureError {
    open spec fn obeys_from_spec() -> bool {
        true
    }

    open spec fn from_spec(pe: url::ParseError) -> Self {
        AzureError::ParseError(pe)
    }
}

/// The target URL for an event hub in a service bus namespace.
pub open spec fn event_hub_url(namespace: Seq<char>, event_hub: Seq<char>) -> Seq<char> {
    "https://"@ + namespace + ".servicebus.windows.net/"@ + event_hub + "/messages"@
}

/// Build the target URL string for a namespace and event hub name.
pub fn build_event_hub_url(namespace: &str, event_hub: &str) -> (r: String)
    ensures
        r@ == event_hub_url(namespace@, event_hub@),
{
    let mut url = String::new();
    url.append("https://");
    url.append(namespace);
    url.append(".servicebus.windows.net/");
    url.append(event_hub);
    url.append("/messages");
    proof {
        assert(url@ =~= event_hub_url(namespace@, event_hub@));
    }
    url
}

/// The string form of a parsed URL. Left without a definition: parsing
/// normalizes deterministically, so the serialization is a function of the
/// input alone.
pub uninterp spec fn url_normalized(s: Seq<char>) -> Seq<char>;

/// Whether a URL string parses. Left without a definition: url's parser
/// accepts or rejects from the input alone.
pub uninterp spec fn url_parses(s: Seq<char>) -> bool;

/// Relies on url's `Url::parse` and its `String` conversion: whether a URL
/// parses, and the string a parsed URL serializes to, both depend on the
/// input alone.
#[verifier::external_body]
fn parse_url(s: &str) -> (r: Result<String, url::ParseError>)
    ensures
        r is Ok <==> url_parses(s@),
        r matches Ok(u) ==> u@ == url_normalized(s@),
{
    match url::Url::parse(s) {
        Ok(u) => Ok(String::from(u)),
        Err(e) => Err(e),
    }
}

/// One prepared submission: the parsed target URL, the `Authorization`
/// header value, and the `Content-Length` the caller declared.
#[derive(Debug)]
pub struct SubmissionRequest {
    pub url: String,
    pub authorization: String,
    pub content_length: u64,
}

/// Prepare one submission: build and parse the target URL and sign it for
/// the current time plus `ttl_seconds`. The caller issues the POST with the
/// two headers and exactly `content_length` body bytes, then hands the
/// response to `classify_response`. Succeeds exactly when the built URL
/// parses; fails only with the parse error.
pub fn prepare_submission(
    namespace: &str,
    event_hub: &str,
    policy_name: &str,
    key: &str,
    content_length: u64,
    ttl_seconds: i64,
) -> (r: Result<SubmissionRequest, AzureError>)
    requires
        0 <= ttl_seconds <= i64::MAX - 0x20_0000_0000_0000,
    ensures
        r is Ok <==> url_parses(event_hub_url(namespace@, event_hub@)),
        r matches Ok(req) ==> {
            &&& req.url@ == url_normalized(event_hub_url(namespace@, event_hub@))
            &&& req.content_length == content_length
            &&& exists|now: int|
                -0x20_0000_0000_0000 <= now <= 0x20_0000_0000_0000 && req.authorization@
                    == sas_token(
                    policy_name@,
                    key.spec_bytes(),
                    encode_utf8(req.url@),
                    sas_expiry(now, ttl_seconds as int),
                )
        },
        r matches Err(e) ==> e is ParseError,
{
    let raw = build_event_hub_url(namespace, event_hub);
    match parse_url(raw.as_str()) {
        Err(e) => Err(AzureError::from(e)),
        Ok(u) => {
            let sas = generate_signature(policy_name, key, u.as_str(), ttl_seconds);
            Ok(SubmissionRequest { url: u, authorization: sas, content_length })
        },
    }
}

/// Decide what a response means: the expected status is success, anything
/// else is an `UnexpectedHTTPResult` carrying the expected status, the
/// received status and the response body text.
pub fn classify_response(status: u16, body: &str) -> (r: Result<(), AzureError>)
    ensures
        r is Ok <==> status == CREATED_STATUS,
        status != CREATED_STATUS ==> (r matches Err(e) && e matches
            AzureError::UnexpectedHTTPResult(u) && u.expected == CREATED_STATUS && u.received
            == status && u.body@ == body@),
{
    if status == CREATED_STATUS {
        Ok(())
    } else {
        Err(
            AzureError::UnexpectedHTTPResult(
                UnexpectedHTTPResult::new(CREATED_STATUS, status, body),
            ),
        )
    }
}

} // verus!
