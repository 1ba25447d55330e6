//! Image specifications: the list of operations a thumbnail request asks
//! for, and their text form (URL-safe base64 of the encoded message).
use vstd::prelude::*;

pub mod filter;
pub mod resize;
pub mod spec;

use resize::SampleFilter;
use vstd::string::StringSliceAdditionalSpecFns;
use vstd::utf8::{encode_utf8, is_ascii_chars, is_ascii_chars_encode_utf8};

verus! {

/// Scale to `width` x `height`; `rtype` and `filter` hold protocol numbers
/// of a `resize::ResizeType` and a `resize::SampleFilter`.
#[derive(Clone, Copy, Debug, PartialEq, Eq, Structural)]
pub struct Resize {
    pub width: u32,
    pub height: u32,
    pub rtype: i32,
    pub filter: i32,
}

/// Cut out the rectangle from (`x1`, `y1`) to (`x2`, `y2`).
#[derive(Clone, Copy, Debug, PartialEq, Eq, Structural)]
pub struct Crop {
    pub x1: u32,
    pub y1: u32,
    pub x2: u32,
    pub y2: u32,
}

/// Mirror the image left to right.
#[derive(Clone, Copy, Debug, PartialEq, Eq, Structural)]
pub struct Fliph {}

/// Mirror the image top to bottom.
#[derive(Clone, Copy, Debug, PartialEq, Eq, Structural)]
pub struct Flipv {}

/// Change the contrast; `contrast_bits` is the bit pattern of the `f32` amount.
#[derive(Clone, Copy, Debug, PartialEq, Eq, Structural)]
pub struct Contrast {
    pub contrast_bits: u32,
}

/// Apply a colour filter; `filter` holds the protocol number of a `filter::Filter`.
#[derive(Clone, Copy, Debug, PartialEq, Eq, Structural)]
pub struct Filter {
    pub filter: i32,
}

/// Stamp the watermark at (`x`, `y`).
#[derive(Clone, Copy, Debug, PartialEq, Eq, Structural)]
pub struct Watermark {
    pub x: u32,
    pub y: u32,
}

/// Oil painting effect; `intensity_bits` is the bit pattern of the `f32` intensity.
#[derive(Clone, Copy, Debug, PartialEq, Eq, Structural)]
pub struct Oil {
    pub radius: u32,
    pub intensity_bits: u32,
}

/// One requested operation; a specification without data asks for nothing.
#[derive(Clone, Copy, Debug, PartialEq, Eq, Structural)]
pub struct Spec {
    pub data: Option<spec::Data>,
}

/// The operations a request asks for, in order.
#[derive(Clone, Debug)]
pub struct ImageSpec {
    pub specs: Vec<Spec>,
}

impl ImageSpec {
    /// A specification made of `specs`, in order.
    pub fn new(specs: Vec<Spec>) -> (r: Self)
        ensures
            r.specs@ == specs@,
    {
        Self { specs }
    }
}

impl Spec {
    /// Plain scaling to `width` x `height` with the sampling `filter`.
    pub fn new_resize(width: u32, height: u32, filter: SampleFilter) -> (r: Self)
        ensures
            r.data == Some(
                spec::Data::Resize(
                    Resize { width, height, rtype: 0, filter: resize::sample_filter_number(filter) },
                ),
            ),
    {
        let rtype = resize::ResizeType::Normal.to_i32();
        Spec {
            data: Some(
                spec::Data::Resize(Resize { width, height, rtype, filter: filter.to_i32() }),
            ),
        }
    }

    /// The watermark stamped at (`x`, `y`).
    pub fn new_watermark(x: u32, y: u32) -> (r: Self)
        ensures
            r.data == Some(spec::Data::Watermark(Watermark { x, y })),
    {
        Spec { data: Some(spec::Data::Watermark(Watermark { x, y })) }
    }
}

/// URL-safe base64 without padding (`base64::encode_config` with
/// `URL_SAFE_NO_PAD`) of `bytes`.
pub uninterp spec fn base64_url_encoded(bytes: Seq<u8>) -> Seq<char>;

/// What `base64::decode_config` with `URL_SAFE_NO_PAD` makes of `text`:
/// the bytes, or none when it refuses the text.
pub uninterp spec fn base64_url_decoded(text: Seq<char>) -> Option<Seq<u8>>;

#[verifier::external_type_specification]
#[verifier::external_body]
pub struct ExDecodeError(base64::DecodeError);

/// The length of the unpadded base64 text of `n` bytes.
pub open spec fn base64_url_len(n: nat) -> nat {
    n / 3 * 4 + if n % 3 == 1 {
        2nat
    } else if n % 3 == 2 {
        3nat
    } else {
        0nat
    }
}

/// Whether `c` belongs to the URL-safe base64 alphabet.
pub open spec fn is_url_safe_base64(c: char) -> bool {
    ('A' <= c && c <= 'Z') || ('a' <= c && c <= 'z') || ('0' <= c && c <= '9') || c == '-' || c
        == '_'
}

/// Calls `base64::encode_config(bytes, URL_SAFE_NO_PAD)`: unpadded text of
/// `base64_url_len` characters from the URL-safe alphabet. It allocates the
/// text up front, which panics past `isize::MAX` bytes.
#[verifier::external_body]
fn encode_url_safe(bytes: &[u8]) -> (r: String)
    requires
        base64_url_len(bytes@.len()) <= isize::MAX,
    ensures
        r@ == base64_url_encoded(bytes@),
        r@.len() == base64_url_len(bytes@.len()),
        forall|i: int| 0 <= i < r@.len() ==> is_url_safe_base64(#[trigger] r@[i]),
{
    base64::encode_config(bytes, base64::URL_SAFE_NO_PAD)
}

/// Calls `base64::decode_config(text, URL_SAFE_NO_PAD)`. Text that the
/// encoder produced from some bytes decodes back to exactly those bytes. It
/// sizes its output from the text's length plus 3, which panics on overflow.
#[verifier::external_body]
fn decode_url_safe(text: &str) -> (r: Result<Vec<u8>, base64::DecodeError>)
    requires
        text.spec_bytes().len() <= usize::MAX - 3,
    ensures
        r is Ok <==> base64_url_decoded(text@) is Some,
        r is Ok ==> base64_url_decoded(text@) == Some(r->Ok_0@),
        forall|b: Seq<u8>| #[trigger] base64_url_encoded(b) == text@ ==> (r is Ok && r->Ok_0@ == b),
{
    base64::decode_config(text, base64::URL_SAFE_NO_PAD)
}

/// The text of a specification is not valid URL-safe base64.
#[derive(Clone, Copy, Debug, PartialEq, Eq, Structural)]
pub struct SpecTextError;

/// The text form of an encoded specification message: unpadded URL-safe
/// base64, whose UTF-8 length is its number of characters.
pub fn spec_text_from_bytes(bytes: &[u8]) -> (r: String)
    requires
        base64_url_len(bytes@.len()) <= isize::MAX,
    ensures
        r@ == base64_url_encoded(bytes@),
        r@.len() == base64_url_len(bytes@.len()),
        forall|i: int| 0 <= i < r@.len() ==> is_url_safe_base64(#[trigger] r@[i]),
        encode_utf8(r@).len() == base64_url_len(bytes@.len()),
{
    let r = encode_url_safe(bytes);
    proof {
        assert(is_ascii_chars(r@)) by {
            assert forall|i: int| 0 <= i < r@.len() implies '\0' <= #[trigger] r@[i] <= '\u{7f}' by {
                assert(is_url_safe_base64(r@[i]));
            }
        }
        is_ascii_chars_encode_utf8(r@);
    }
    r
}

/// The encoded specification message that a text form holds. The text of
/// any message decodes back to that message.
pub fn spec_bytes_from_text(text: &str) -> (r: Result<Vec<u8>, SpecTextError>)
    requires
        text.spec_bytes().len() <= usize::MAX - 3,
    ensures
        match r {
            Ok(b) => base64_url_decoded(text@) == Some(b@),
            Err(_) => base64_url_decoded(text@) is None,
        },
        forall|b: Seq<u8>| #[trigger] base64_url_encoded(b) == text@ ==> (r is Ok && r->Ok_0@ == b),
{
    match decode_url_safe(text) {
        Ok(b) => Ok(b),
        Err(_) => Err(SpecTextError),
    }
}

} // verus!
