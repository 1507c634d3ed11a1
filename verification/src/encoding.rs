//! Percent-encoding over UTF-8 bytes, with the two profiles the signature
//! scheme needs: one safe for HTTP header values and one for
//! form-urlencoded data. The two must stay distinct: the remote verifier
//! re-computes the signature from the header-value form, while the `sig`
//! field travels in the form-urlencoded form.

use vstd::prelude::*;
use vstd::string::StringSliceAdditionalSpecFns;

verus! {

/// The two percent-encoding profiles used by the token scheme.
#[derive(Clone, Copy)]
pub enum EncodeProfile {
    /// Escapes every byte unsafe in an HTTP header value: only letters,
    /// digits and the attr-char marks of RFC 5987 pass through.
    HttpValue,
    /// The form-urlencoded profile: only letters, digits and `*-._`
    /// pass through.
    FormUrlencoded,
}

/// Bytes the HTTP-header-value profile leaves unescaped: letters, digits,
/// and `! # $ & + - . ^ _ ` | ~` (the attr-char set of RFC 5987).
pub open spec fn http_value_unescaped(b: u8) -> bool {
    ||| 0x41 <= b <= 0x5A  // A-Z
    ||| 0x61 <= b <= 0x7A  // a-z
    ||| 0x30 <= b <= 0x39  // 0-9
    ||| b == 0x21  // !
    ||| b == 0x23  // #
    ||| b == 0x24  // $
    ||| b == 0x26  // &
    ||| b == 0x2B  // +
    ||| b == 0x2D  // -
    ||| b == 0x2E  // .
    ||| b == 0x5E  // ^
    ||| b == 0x5F  // _
    ||| b == 0x60  // `
    ||| b == 0x7C  // |
    ||| b == 0x7E  // ~
}

/// Bytes the form-urlencoded profile leaves unescaped: letters, digits,
/// and `* - . _`.
pub open spec fn form_urlencoded_unescaped(b: u8) -> bool {
    ||| 0x41 <= b <= 0x5A  // A-Z
    ||| 0x61 <= b <= 0x7A  // a-z
    ||| 0x30 <= b <= 0x39  // 0-9
    ||| b == 0x2A  // *
    ||| b == 0x2D  // -
    ||| b == 0x2E  // .
    ||| b == 0x5F  // _
}

pub open spec fn profile_unescaped(p: EncodeProfile, b: u8) -> bool {
    match p {
        EncodeProfile::HttpValue => http_value_unescaped(b),
        EncodeProfile::FormUrlencoded => form_urlencoded_unescaped(b),
    }
}

/// Uppercase hexadecimal digit for a value below 16.
pub open spec fn hex_digit(n: int) -> u8 {
    if n < 10 {
        (0x30 + n) as u8
    } else {
        (0x41 + (n - 10)) as u8
    }
}

/// The three-byte escape `%XX` of a byte, with uppercase hexadecimal digits.
pub open spec fn escape_byte(b: u8) -> Seq<u8> {
    seq![0x25u8, hex_digit(b as int / 16), hex_digit(b as int % 16)]
}

/// What one input byte contributes to the encoded output.
pub open spec fn profile_escaped(p: EncodeProfile, b: u8) -> Seq<u8> {
    if profile_unescaped(p, b) {
        seq![b]
    } else {
        escape_byte(b)
    }
}

/// Percent-encoding of a byte sequence under a profile.
pub open spec fn percent_encode_seq(p: EncodeProfile, s: Seq<u8>) -> Seq<u8>
    decreases s.len(),
{
    if s.len() == 0 {
        Seq::empty()
    } else {
        profile_escaped(p, s[0]) + percent_encode_seq(p, s.drop_first())
    }
}

pub open spec fn is_hex_digit(b: u8) -> bool {
    ||| 0x30 <= b <= 0x39
    ||| 0x41 <= b <= 0x46
    ||| 0x61 <= b <= 0x66
}

/// Value of a hexadecimal digit byte (either case).
pub open spec fn hex_value(b: u8) -> int {
    if 0x30 <= b <= 0x39 {
        b - 0x30
    } else if 0x41 <= b <= 0x46 {
        b - 0x41 + 10
    } else {
        b - 0x61 + 10
    }
}

/// Percent-decoding: each `%` followed by two hexadecimal digits becomes one
/// byte; every other byte passes through unchanged.
pub open spec fn percent_decode_seq(s: Seq<u8>) -> Seq<u8>
    decreases s.len(),
{
    if s.len() == 0 {
        Seq::empty()
    } else if s[0] == 0x25 && s.len() >= 3 && is_hex_digit(s[1]) && is_hex_digit(s[2]) {
        seq![(hex_value(s[1]) * 16 + hex_value(s[2])) as u8] + percent_decode_seq(s.skip(3))
    } else {
        seq![s[0]] + percent_decode_seq(s.skip(1))
    }
}

/// The characters of an ASCII byte sequence, one per byte.
pub open spec fn ascii_chars_of(s: Seq<u8>) -> Seq<char> {
    s.map_values(|b: u8| b as char)
}

/// Executable form of `hex_digit`.
fn hex_digit_byte(n: u8) -> (r: u8)
    requires
        n < 16,
    ensures
        r == hex_digit(n as int),
{
    if n < 10 {
        0x30 + n
    } else {
        0x41 + (n - 10)
    }
}

fn hex_value_byte(b: u8) -> (r: u8)
    requires
        is_hex_digit(b),
    ensures
        r as int == hex_value(b),
        r < 16,
{
    if 0x30 <= b && b <= 0x39 {
        b - 0x30
    } else if 0x41 <= b && b <= 0x46 {
        b - 0x41 + 10
    } else {
        b - 0x61 + 10
    }
}

fn byte_unescaped(p: EncodeProfile, b: u8) -> (r: bool)
    ensures
        r == profile_unescaped(p, b),
{
    let alnum = (0x41 <= b && b <= 0x5A) || (0x61 <= b && b <= 0x7A) || (0x30 <= b && b <= 0x39);
    match p {
        EncodeProfile::HttpValue => alnum || b == 0x21 || b == 0x23 || b == 0x24 || b == 0x26
            || b == 0x2B || b == 0x2D || b == 0x2E || b == 0x5E || b == 0x5F || b == 0x60
            || b == 0x7C || b == 0x7E,
        EncodeProfile::FormUrlencoded => alnum || b == 0x2A || b == 0x2D || b == 0x2E
            || b == 0x5F,
    }
}

proof fn lemma_encode_snoc(p: EncodeProfile, s: Seq<u8>, b: u8)
    ensures
        percent_encode_seq(p, s + seq![b]) == percent_encode_seq(p, s) + profile_escaped(p, b),
    decreases s.len(),
{
    if s.len() == 0 {
        assert(s + seq![b] =~= seq![b]);
        assert(seq![b].drop_first() =~= Seq::<u8>::empty());
        assert(percent_encode_seq(p, Seq::<u8>::empty()) == Seq::<u8>::empty());
        assert(percent_encode_seq(p, seq![b]) == profile_escaped(p, b)
            + Seq::<u8>::empty());
        assert(percent_encode_seq(p, s) == Seq::<u8>::empty());
        assert(percent_encode_seq(p, s + seq![b]) =~= percent_encode_seq(p, s) + profile_escaped(
            p,
            b,
        ));
    } else {
        lemma_encode_snoc(p, s.drop_first(), b);
        assert((s + seq![b]).drop_first() =~= s.drop_first() + seq![b]);
        assert((s + seq![b])[0] == s[0]);
        assert(percent_encode_seq(p, s + seq![b]) == profile_escaped(p, s[0])
            + percent_encode_seq(p, s.drop_first() + seq![b]));
        assert(percent_encode_seq(p, s.drop_first() + seq![b]) == percent_encode_seq(
            p,
            s.drop_first(),
        ) + profile_escaped(p, b));
        assert(percent_encode_seq(p, s + seq![b]) =~= percent_encode_seq(p, s) + profile_escaped(
            p,
            b,
        ));
    }
}

/// Every byte of a percent-encoded sequence is ASCII.
pub proof fn lemma_encode_output_ascii(p: EncodeProfile, s: Seq<u8>)
    ensures
        forall|i: int| 0 <= i < percent_encode_seq(p, s).len() ==> percent_encode_seq(p, s)[i]
            < 0x80,
    decreases s.len(),
{
    if s.len() != 0 {
        lemma_encode_output_ascii(p, s.drop_first());
        let e = percent_encode_seq(p, s);
        let e0 = profile_escaped(p, s[0]);
        let er = percent_encode_seq(p, s.drop_first());
        assert(e == e0 + er);
        assert(forall|i: int| 0 <= i < e0.len() ==> e0[i] < 0x80) by {
            if profile_unescaped(p, s[0]) {
                assert(e0 =~= seq![s[0]]);
            } else {
                assert(e0 =~= escape_byte(s[0]));
                assert(e0[0] == 0x25 && e0[1] == hex_digit(s[0] as int / 16) && e0[2] == hex_digit(
                    s[0] as int % 16,
                ));
            }
        }
        assert forall|i: int| 0 <= i < e.len() implies e[i] < 0x80 by {
            if i < e0.len() {
                assert(e[i] == e0[i]);
            } else {
                assert(e[i] == er[i - e0.len()]);
            }
        }
    }
}

/// Percent-encode a byte sequence under the given profile.
pub fn percent_encode_bytes(p: EncodeProfile, s: &[u8]) -> (r: Vec<u8>)
    ensures
        r@ == percent_encode_seq(p, s@),
{
    let mut out: Vec<u8> = Vec::new();
    let mut i: usize = 0;
    while i < s.len()
        invariant
            i <= s@.len(),
            out@ == percent_encode_seq(p, s@.take(i as int)),
        decreases s@.len() - i,
    {
        let b = s[i];
        if byte_unescaped(p, b) {
            out.push(b);
        } else {
            out.push(0x25);
            out.push(hex_digit_byte(b / 16));
            out.push(hex_digit_byte(b % 16));
        }
        proof {
            assert(s@.take(i as int + 1) =~= s@.take(i as int) + seq![s@[i as int]]);
            lemma_encode_snoc(p, s@.take(i as int), s@[i as int]);
            assert(out@ =~= percent_encode_seq(p, s@.take(i as int)) + profile_escaped(
                p,
                s@[i as int],
            ));
        }
        i += 1;
    }
    proof {
        assert(s@.take(s@.len() as int) =~= s@);
    }
    out
}

/// Percent-decode a byte sequence.
pub fn percent_decode_bytes(s: &[u8]) -> (r: Vec<u8>)
    ensures
        r@ == percent_decode_seq(s@),
{
    let mut out: Vec<u8> = Vec::new();
    let mut i: usize = 0;
    proof {
        assert(s@.skip(0) =~= s@);
        assert(out@ + percent_decode_seq(s@) =~= percent_decode_seq(s@));
    }
    while i < s.len()
        invariant
            i <= s@.len(),
            percent_decode_seq(s@) == out@ + percent_decode_seq(s@.skip(i as int)),
        decreases s@.len() - i,
    {
        let b = s[i];
        if b == 0x25 && s.len() - i >= 3 && is_hex_digit_byte(s[i + 1]) && is_hex_digit_byte(
            s[i + 2],
        ) {
            let hi = hex_value_byte(s[i + 1]);
            let lo = hex_value_byte(s[i + 2]);
            out.push(hi * 16 + lo);
            proof {
                let t = s@.skip(i as int);
                assert(t[0] == 0x25 && t.len() >= 3 && is_hex_digit(t[1]) && is_hex_digit(t[2]));
                assert(t.skip(3) =~= s@.skip(i as int + 3));
            }
            i += 3;
        } else {
            out.push(b);
            proof {
                let t = s@.skip(i as int);
                assert(t[0] == b);
                assert(!(t[0] == 0x25 && t.len() >= 3 && is_hex_digit(t[1]) && is_hex_digit(
                    t[2],
                )));
                assert(t.skip(1) =~= s@.skip(i as int + 1));
            }
            i += 1;
        }
    }
    proof {
        assert(s@.skip(s@.len() as int) =~= Seq::<u8>::empty());
        assert(out@ =~= percent_decode_seq(s@));
    }
    out
}

fn is_hex_digit_byte(b: u8) -> (r: bool)
    ensures
        r == is_hex_digit(b),
{
    (0x30 <= b && b <= 0x39) || (0x41 <= b && b <= 0x46) || (0x61 <= b && b <= 0x66)
}

proof fn lemma_hex_digit_facts(b: u8)
    ensures
        is_hex_digit(hex_digit(b as int / 16)),
        is_hex_digit(hex_digit(b as int % 16)),
        hex_value(hex_digit(b as int / 16)) == b as int / 16,
        hex_value(hex_digit(b as int % 16)) == b as int % 16,
        hex_value(hex_digit(b as int / 16)) * 16 + hex_value(hex_digit(b as int % 16)) == b as int,
{
}

/// Law: percent-decoding a percent-encoded sequence gives back the input, and
/// re-encoding the decoded form yields the encoded sequence unchanged: each
/// profile is idempotent under decode-then-encode.
pub proof fn lemma_percent_round_trip(p: EncodeProfile, s: Seq<u8>)
    ensures
        percent_decode_seq(percent_encode_seq(p, s)) == s,
        percent_encode_seq(p, percent_decode_seq(percent_encode_seq(p, s)))
            == percent_encode_seq(p, s),
    decreases s.len(),
{
    if s.len() == 0 {
        assert(percent_decode_seq(percent_encode_seq(p, s)) =~= s);
    } else {
        let b = s[0];
        let rest = s.drop_first();
        lemma_percent_round_trip(p, rest);
        let erest = percent_encode_seq(p, rest);
        if profile_unescaped(p, b) {
            let t = seq![b] + erest;
            assert(percent_encode_seq(p, s) =~= t);
            assert(t[0] == b && b != 0x25);
            assert(t.skip(1) =~= erest);
            assert(percent_decode_seq(t) =~= seq![b] + rest);
            assert(seq![b] + rest =~= s);
        } else {
            lemma_hex_digit_facts(b);
            let h1 = hex_digit(b as int / 16);
            let h2 = hex_digit(b as int % 16);
            let t = escape_byte(b) + erest;
            assert(percent_encode_seq(p, s) =~= t);
            assert(t.len() >= 3 && t[0] == 0x25 && t[1] == h1 && t[2] == h2);
            assert(t.skip(3) =~= erest);
            assert((hex_value(t[1]) * 16 + hex_value(t[2])) as u8 == b);
            assert(percent_decode_seq(t) =~= seq![b] + rest);
            assert(seq![b] + rest =~= s);
        }
    }
}

/// Relies on `String::from_utf8`: bytes below 0x80 are valid UTF-8 and decode
/// to one character each, with the same code.
#[verifier::external_body]
pub(crate) fn ascii_to_string(v: Vec<u8>) -> (r: String)
    requires
        forall|i: int| 0 <= i < v@.len() ==> v@[i] < 0x80,
    ensures
        r@ == ascii_chars_of(v@),
{
    String::from_utf8(v).unwrap()
}

/// Percent-encode a string under the HTTP-header-value profile, over its
/// UTF-8 bytes.
pub fn percent_encode_http_value(s: &str) -> (r: String)
    ensures
        r@ == ascii_chars_of(percent_encode_seq(EncodeProfile::HttpValue, s.spec_bytes())),
{
    let enc = percent_encode_bytes(EncodeProfile::HttpValue, s.as_bytes());
    proof {
        lemma_encode_output_ascii(EncodeProfile::HttpValue, s.spec_bytes());
    }
    ascii_to_string(enc)
}

/// Percent-encode a string under the form-urlencoded profile, over its
/// UTF-8 bytes.
pub fn percent_encode_form_urlencoded(s: &str) -> (r: String)
    ensures
        r@ == ascii_chars_of(percent_encode_seq(EncodeProfile::FormUrlencoded, s.spec_bytes())),
{
    let enc = percent_encode_bytes(EncodeProfile::FormUrlencoded, s.as_bytes());
    proof {
        lemma_encode_output_ascii(EncodeProfile::FormUrlencoded, s.spec_bytes());
    }
    ascii_to_string(enc)
}

/// Percent-decode a string's UTF-8 bytes. The result is returned as bytes:
/// a decoded sequence need not be valid UTF-8.
pub fn percent_decode(s: &str) -> (r: Vec<u8>)
    ensures
        r@ == percent_decode_seq(s.spec_bytes()),
{
    percent_decode_bytes(s.as_bytes())
}

} // verus!
