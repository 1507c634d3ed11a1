//! The signer: builds a `SharedAccessSignature` authorization token from a
//! policy name, a key, a resource URL and an expiry instant.
//!
//! The canonical string to sign is the header-value percent-encoding of the
//! URL, a newline, and the decimal expiry. Its HMAC-SHA256 under the key is
//! base64-encoded, then percent-encoded once more under the distinct
//! form-urlencoded profile, and the four fields are assembled into the token.

use crate::decimal::dec_int;
use crate::decimal::i64_to_dec;
use crate::decimal::lemma_dec_int_ascii;
use crate::encoding::EncodeProfile;
use crate::encoding::ascii_chars_of;
use crate::encoding::ascii_to_string;
use crate::encoding::lemma_encode_output_ascii;
use crate::encoding::percent_encode_bytes;
use crate::encoding::percent_encode_seq;
use crypto::mac::Mac;
use rustc_serialize::base64::ToBase64;
use vstd::prelude::*;
use vstd::string::StringExecFns;
use vstd::string::StringSliceAdditionalSpecFns;

verus! {

/// The HMAC-SHA256 digest of a message under a key. Left without a
/// definition: the digest is a function of the key and message bytes alone.
pub uninterp spec fn hmac_sha256_of(key: Seq<u8>, msg: Seq<u8>) -> Seq<u8>;

/// The standard, padded base64 encoding of a byte sequence. Left without a
/// definition: the encoding is a function of the input bytes alone.
pub uninterp spec fn base64_of(bytes: Seq<u8>) -> Seq<u8>;

/// Relies on the crypto crate's `Hmac` over `Sha256`: the digest depends on
/// the key and message bytes alone, and SHA-256 digests are 32 bytes.
#[verifier::external_body]
fn hmac_sha256(key: &[u8], msg: &[u8]) -> (r: Vec<u8>)
    ensures
        r@ == hmac_sha256_of(key@, msg@),
        r@.len() == 32,
{
    let mut mac = crypto::hmac::Hmac::new(crypto::sha2::Sha256::new(), key);
    mac.input(msg);
    mac.result().code().to_vec()
}

/// Relies on rustc_serialize's `to_base64` with the `STANDARD` config:
/// standard alphabet, padded, no line breaks; the output is ASCII and four
/// bytes long for every started group of three input bytes.
#[verifier::external_body]
fn base64_encode(bytes: &[u8]) -> (r: Vec<u8>)
    ensures
        r@ == base64_of(bytes@),
        r@.len() == 4 * ((bytes@.len() + 2) / 3),
        forall|i: int| 0 <= i < r@.len() ==> r@[i] < 0x80,
{
    bytes.to_base64(rustc_serialize::base64::STANDARD).into_bytes()
}

/// Relies on chrono's `Utc::now` and `DateTime::timestamp`: the seconds since
/// the Unix epoch of the current time. chrono's representable dates span
/// roughly years -262000 to +262000, which keeps the value well inside 2^53
/// either way. `Utc::now` itself panics on a system clock that reads before
/// the Unix epoch — an environment state, not an input this crate can
/// exclude.
#[verifier::external_body]
fn now_unix() -> (r: i64)
    ensures
        -0x20_0000_0000_0000 <= r <= 0x20_0000_0000_0000,
{
    chrono::Utc::now().timestamp()
}

/// The expiry instant of a token requested at `now` with the given
/// time-to-live, as epoch seconds.
pub open spec fn sas_expiry(now: int, ttl_seconds: int) -> int {
    now + ttl_seconds
}

/// The canonical string to sign: encoded URL, a newline, the decimal expiry.
pub open spec fn string_to_sign(url: Seq<u8>, expiry: int) -> Seq<u8> {
    percent_encode_seq(EncodeProfile::HttpValue, url) + seq![0x0Au8] + dec_int(expiry)
}

/// The `sig` field: the base64 HMAC-SHA256 of the string to sign, encoded
/// under the form-urlencoded profile.
pub open spec fn signature_field(key: Seq<u8>, url: Seq<u8>, expiry: int) -> Seq<u8> {
    percent_encode_seq(
        EncodeProfile::FormUrlencoded,
        base64_of(hmac_sha256_of(key, string_to_sign(url, expiry))),
    )
}

/// The full token: `SharedAccessSignature sr=<encoded url>&sig=<signature>`
/// `&se=<expiry>&skn=<policy name>`.
pub open spec fn sas_token(policy_name: Seq<char>, key: Seq<u8>, url: Seq<u8>, expiry: int) -> Seq<
    char,
> {
    "SharedAccessSignature sr="@ + ascii_chars_of(
        percent_encode_seq(EncodeProfile::HttpValue, url),
    ) + "&sig="@ + ascii_chars_of(signature_field(key, url, expiry)) + "&se="@ + ascii_chars_of(
        dec_int(expiry),
    ) + "&skn="@ + policy_name
}

/// Build the token for an explicit signing instant `now`. Deterministic: the
/// result is a function of the five arguments alone.
pub fn generate_signature_at(
    policy_name: &str,
    hmac_key: &str,
    url: &str,
    ttl_seconds: i64,
    now: i64,
) -> (r: String)
    requires
        i64::MIN <= now + ttl_seconds <= i64::MAX,
    ensures
        r@ == sas_token(
            policy_name@,
            hmac_key.spec_bytes(),
            url.spec_bytes(),
            sas_expiry(now as int, ttl_seconds as int),
        ),
{
    let expiry: i64 = now + ttl_seconds;
    let ghost url_bytes = url.spec_bytes();

    let mut sts = percent_encode_bytes(EncodeProfile::HttpValue, url.as_bytes());
    sts.push(0x0A);
    let mut expiry_dec = i64_to_dec(expiry);
    sts.append(&mut expiry_dec);
    proof {
        assert(sts@ =~= string_to_sign(url_bytes, expiry as int));
    }

    let mac = hmac_sha256(hmac_key.as_bytes(), sts.as_slice());
    let b64 = base64_encode(mac.as_slice());
    let sig_enc = percent_encode_bytes(EncodeProfile::FormUrlencoded, b64.as_slice());

    let url_enc = percent_encode_bytes(EncodeProfile::HttpValue, url.as_bytes());
    let se_dec = i64_to_dec(expiry);
    proof {
        lemma_encode_output_ascii(EncodeProfile::HttpValue, url_bytes);
        lemma_encode_output_ascii(EncodeProfile::FormUrlencoded, b64@);
        lemma_dec_int_ascii(expiry as int);
    }
    let url_enc_s = ascii_to_string(url_enc);
    let sig_s = ascii_to_string(sig_enc);
    let se_s = ascii_to_string(se_dec);

    let mut token = String::new();
    token.append("SharedAccessSignature sr=");
    token.append(url_enc_s.as_str());
    token.append("&sig=");
    token.append(sig_s.as_str());
    token.append("&se=");
    token.append(se_s.as_str());
    token.append("&skn=");
    token.append(policy_name);
    proof {
        assert(token@ =~= sas_token(
            policy_name@,
            hmac_key.spec_bytes(),
            url_bytes,
            sas_expiry(now as int, ttl_seconds as int),
        ));
    }
    token
}

/// Build the token for the current time plus `ttl_seconds`. The clock is the
/// one source of variation: for some reading `now` of the current time the
/// result is exactly the token of `generate_signature_at`.
pub fn generate_signature(policy_name: &str, hmac_key: &str, url: &str, ttl_seconds: i64) -> (r:
    String)
    requires
        0 <= ttl_seconds <= i64::MAX - 0x20_0000_0000_0000,
    ensures
        exists|now: int|
            -0x20_0000_0000_0000 <= now <= 0x20_0000_0000_0000 && r@ == sas_token(
                policy_name@,
                hmac_key.spec_bytes(),
                url.spec_bytes(),
                sas_expiry(now, ttl_seconds as int),
            ),
{
    let now = now_unix();
    let r = generate_signature_at(policy_name, hmac_key, url, ttl_seconds, now);
    proof {
        let n = now as int;
        assert(-0x20_0000_0000_0000 <= n <= 0x20_0000_0000_0000 && r@ == sas_token(
            policy_name@,
            hmac_key.spec_bytes(),
            url.spec_bytes(),
            sas_expiry(n, ttl_seconds as int),
        ));
    }
    r
}

/// Law: signing is deterministic. Two tokens formed from the same policy
/// name, key, URL and expiry instant are equal.
pub proof fn lemma_signature_deterministic(
    policy_name: Seq<char>,
    key: Seq<u8>,
    url: Seq<u8>,
    expiry: int,
    r1: Seq<char>,
    r2: Seq<char>,
)
    requires
        r1 == sas_token(policy_name, key, url, expiry),
        r2 == sas_token(policy_name, key, url, expiry),
    ensures
        r1 == r2,
{
}

/// Law: the expiry instant is never below the signing instant plus the
/// time-to-live, and a later signing instant with the same time-to-live
/// gives a strictly larger expiry.
pub proof fn lemma_expiry_bounds(now1: int, now2: int, ttl_seconds: int)
    requires
        now1 < now2,
    ensures
        sas_expiry(now1, ttl_seconds) >= now1 + ttl_seconds,
        sas_expiry(now1, ttl_seconds) < sas_expiry(now2, ttl_seconds),
{
}

} // verus!
