//! Shared Access Signature generation and event submission preparation for an
//! Azure Event Hubs style HTTP endpoint.
//!
//! The signer builds a time-limited `SharedAccessSignature` authorization
//! token from a policy name, a key, a resource URL and a time-to-live; the
//! submission side constructs the target URL, prepares the request headers,
//! and classifies the HTTP response. The transport itself is left to the
//! caller.

pub mod decimal;
pub mod encoding;
pub mod signer;
pub mod submit;

pub use encoding::percent_decode;
pub use encoding::percent_encode_form_urlencoded;
pub use encoding::percent_encode_http_value;
pub use signer::generate_signature;
pub use signer::generate_signature_at;
pub use submit::AzureError;
pub use submit::SubmissionRequest;
pub use submit::UnexpectedHTTPResult;
pub use submit::build_event_hub_url;
pub use submit::classify_response;
pub use submit::prepare_submission;
