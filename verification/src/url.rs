//! Percent-encoding of image URLs inside thumbnail request paths.
use vstd::prelude::*;
use vstd::string::StringSliceAdditionalSpecFns;
use vstd::utf8::*;
use crate::writer::{lossy_string, utf8_lossy};

verus! {

/// Whether `b` is an ASCII letter or digit.
pub open spec fn is_alnum(b: u8) -> bool {
    (48 <= b <= 57) || (65 <= b <= 90) || (97 <= b <= 122)
}

/// The upper-case hexadecimal digit byte for `v < 16`.
pub open spec fn hex_digit(v: u8) -> u8 {
    if v < 10 {
        (v + 48) as u8
    } else {
        (v + 55) as u8
    }
}

/// The value of a hexadecimal digit byte (either case), if it is one.
pub open spec fn hex_value(b: u8) -> Option<u8> {
    if 48 <= b <= 57 {
        Some((b - 48) as u8)
    } else if 65 <= b <= 70 {
        Some((b - 55) as u8)
    } else if 97 <= b <= 102 {
        Some((b - 87) as u8)
    } else {
        None
    }
}

/// The encoding of one byte: letters and digits stay, every other byte
/// becomes `%` and two upper-case hexadecimal digits.
pub open spec fn encoded_byte(b: u8) -> Seq<u8> {
    if is_alnum(b) {
        seq![b]
    } else {
        seq![37u8, hex_digit(b / 16), hex_digit(b % 16)]
    }
}

/// The bytes of the percent-encoding of `bytes`.
pub open spec fn percent_encoded_bytes(bytes: Seq<u8>) -> Seq<u8>
    decreases bytes.len(),
{
    if bytes.len() == 0 {
        Seq::empty()
    } else {
        encoded_byte(bytes[0]) + percent_encoded_bytes(bytes.drop_first())
    }
}

/// The percent-encoding of `bytes`, as text.
pub open spec fn percent_encoded(bytes: Seq<u8>) -> Seq<char> {
    percent_encoded_bytes(bytes).map_values(|b: u8| b as char)
}

/// Percent-decoding: each `%` followed by two hexadecimal digits becomes the
/// byte they spell; every other byte stays.
pub open spec fn percent_decoded(bytes: Seq<u8>) -> Seq<u8>
    decreases bytes.len(),
{
    if bytes.len() == 0 {
        Seq::empty()
    } else if bytes[0] == 37 && bytes.len() >= 3 && hex_value(bytes[1]) is Some && hex_value(
        bytes[2],
    ) is Some {
        seq![(hex_value(bytes[1])->Some_0 * 16 + hex_value(bytes[2])->Some_0) as u8]
            + percent_decoded(bytes.subrange(3, bytes.len() as int))
    } else {
        seq![bytes[0]] + percent_decoded(bytes.drop_first())
    }
}

/// Calls `percent_encoding::percent_encode(bytes, NON_ALPHANUMERIC)` and
/// collects the text it yields.
#[verifier::external_body]
fn percent_encode_non_alnum(bytes: &[u8]) -> (r: String)
    ensures
        r@ == percent_encoded(bytes@),
{
    percent_encoding::percent_encode(bytes, percent_encoding::NON_ALPHANUMERIC).to_string()
}

/// Calls `percent_encoding::percent_decode_str(s)` and collects the bytes it yields.
#[verifier::external_body]
fn percent_decode_bytes(s: &str) -> (r: Vec<u8>)
    ensures
        r@ == percent_decoded(s.spec_bytes()),
{
    percent_encoding::percent_decode_str(s).collect()
}

/// The percent-encoded UTF-8 bytes of `url`, fit to stand in a request path.
pub fn encode_image_url(url: &str) -> (r: String)
    ensures
        r@ == percent_encoded(url.spec_bytes()),
{
    percent_encode_non_alnum(url.as_bytes())
}

/// The URL that a request path carries: percent-decoded, then read as UTF-8
/// with invalid sequences replaced.
pub fn decode_image_url(url: &str) -> (r: String)
    ensures
        r@ == utf8_lossy(percent_decoded(url.spec_bytes())),
        valid_utf8(percent_decoded(url.spec_bytes())) ==> r@ == decode_utf8(
            percent_decoded(url.spec_bytes()),
        ),
{
    let bytes = percent_decode_bytes(url);
    lossy_string(bytes.as_slice())
}

/// The request URL of the thumbnail service for a specification text and
/// an image URL.
pub open spec fn request_url(spec_text: Seq<char>, image_url: Seq<char>) -> Seq<char> {
    "http://localhost:3000/image/"@ + spec_text + "/"@ + percent_encoded(encode_utf8(image_url))
}

/// The request URL of the thumbnail service for a specification text and
/// an image URL.
pub fn test_url(spec_text: &str, image_url: &str) -> (r: String)
    ensures
        r@ == request_url(spec_text@, image_url@),
{
    let mut out = String::from_str("http://localhost:3000/image/");
    out.append(spec_text);
    out.append("/");
    let encoded = encode_image_url(image_url);
    out.append(encoded.as_str());
    out
}

proof fn lemma_encoded_ascii(bytes: Seq<u8>)
    ensures
        forall|i: int|
            0 <= i < percent_encoded_bytes(bytes).len() ==> #[trigger] percent_encoded_bytes(
                bytes,
            )[i] < 128,
    decreases bytes.len(),
{
    if bytes.len() > 0 {
        lemma_encoded_ascii(bytes.drop_first());
        let e = encoded_byte(bytes[0]);
        let rest = percent_encoded_bytes(bytes.drop_first());
        assert forall|i: int| 0 <= i < (e + rest).len() implies #[trigger] (e + rest)[i] < 128 by {
            if i >= e.len() {
                assert((e + rest)[i] == rest[i - e.len()]);
            }
        }
    }
}

proof fn lemma_decode_encoded(bytes: Seq<u8>)
    ensures
        percent_decoded(percent_encoded_bytes(bytes)) == bytes,
    decreases bytes.len(),
{
    if bytes.len() > 0 {
        let b = bytes[0];
        let rest = percent_encoded_bytes(bytes.drop_first());
        lemma_decode_encoded(bytes.drop_first());
        let whole = encoded_byte(b) + rest;
        if is_alnum(b) {
            assert(whole.drop_first() =~= rest);
        } else {
            assert(hex_value(hex_digit(b / 16)) == Some((b / 16) as u8));
            assert(hex_value(hex_digit(b % 16)) == Some((b % 16) as u8));
            assert(whole.subrange(3, whole.len() as int) =~= rest);
        }
        assert(percent_decoded(whole) =~= seq![b] + bytes.drop_first());
        assert(bytes =~= seq![b] + bytes.drop_first());
    }
}

/// Decoding an encoded image URL gives the URL back: the text of
/// `encode_image_url(s)` percent-decodes to valid UTF-8 that reads as `s`.
pub proof fn lemma_image_url_round_trip(s: Seq<char>)
    ensures
        valid_utf8(percent_decoded(encode_utf8(percent_encoded(encode_utf8(s))))),
        decode_utf8(percent_decoded(encode_utf8(percent_encoded(encode_utf8(s))))) == s,
{
    let b = encode_utf8(s);
    let text = percent_encoded(b);
    lemma_encoded_ascii(b);
    assert(is_ascii_chars(text)) by {
        assert forall|i: int| 0 <= i < text.len() implies '\0' <= #[trigger] text[i] <= '\u{7f}' by {
            assert(text[i] == percent_encoded_bytes(b)[i] as char);
        }
    }
    is_ascii_chars_encode_utf8(text);
    assert(encode_utf8(text) =~= percent_encoded_bytes(b)) by {
        assert forall|i: int| 0 <= i < text.len() implies encode_utf8(text)[i]
            == percent_encoded_bytes(b)[i] by {
            assert(text[i] as u8 == encode_utf8(text)[i]);
            assert(text[i] == percent_encoded_bytes(b)[i] as char);
        }
    }
    lemma_decode_encoded(b);
    encode_utf8_valid_utf8(s);
    encode_utf8_decode_utf8(s);
}

} // verus!
