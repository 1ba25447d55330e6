//! Turning image specifications into the concrete operations that an image
//! engine carries out, in order.
use vstd::prelude::*;
use crate::pb::filter::{filter_of, Filter};
use crate::pb::resize::{resize_type_of, sample_filter_of, ResizeType, SampleFilter};
use crate::pb::spec::Data;
use crate::pb::Spec;

verus! {

/// The sampling filters of the image engine's scaling.
#[derive(Clone, Copy, Debug, PartialEq, Eq, Structural)]
pub enum Sampling {
    Nearest,
    Triangle,
    CatmullRom,
    Gaussian,
    Lanczos3,
}

/// The engine's sampling for a requested sample filter; an undefined one
/// samples the nearest pixel.
pub open spec fn sampling_for(f: SampleFilter) -> Sampling {
    match f {
        SampleFilter::Undefined => Sampling::Nearest,
        SampleFilter::Nearest => Sampling::Nearest,
        SampleFilter::Triangle => Sampling::Triangle,
        SampleFilter::CatmullRom => Sampling::CatmullRom,
        SampleFilter::Gaussian => Sampling::Gaussian,
        SampleFilter::Lanczos3 => Sampling::Lanczos3,
    }
}

/// The engine's sampling for a requested sample filter.
pub fn sampling(f: SampleFilter) -> (r: Sampling)
    ensures
        r == sampling_for(f),
{
    match f {
        SampleFilter::Undefined => Sampling::Nearest,
        SampleFilter::Nearest => Sampling::Nearest,
        SampleFilter::Triangle => Sampling::Triangle,
        SampleFilter::CatmullRom => Sampling::CatmullRom,
        SampleFilter::Gaussian => Sampling::Gaussian,
        SampleFilter::Lanczos3 => Sampling::Lanczos3,
    }
}

/// One operation of the image engine.
#[derive(Clone, Copy, Debug, PartialEq, Eq, Structural)]
pub enum ImageOp {
    Crop { x1: u32, y1: u32, x2: u32, y2: u32 },
    Resize { width: u32, height: u32, sampling: Sampling },
    SeamCarve { width: u32, height: u32 },
    FlipV,
    FlipH,
    Contrast { contrast_bits: u32 },
    Filter { filter: Filter },
    Watermark { x: u32, y: u32 },
    Oil { radius: i32, intensity_bits: u32 },
}

/// Whether the engine can carry out `spec`: a resize names a known resize
/// type, and plain scaling a known sample filter.
pub open spec fn spec_supported(spec: Spec) -> bool {
    match spec.data {
        Some(Data::Resize(r)) => match resize_type_of(r.rtype) {
            Some(ResizeType::Normal) => sample_filter_of(r.filter) is Some,
            Some(ResizeType::SeamCarve) => true,
            None => false,
        },
        _ => true,
    }
}

/// Whether the engine can carry out every specification in `specs`.
pub open spec fn all_supported(specs: Seq<Spec>) -> bool {
    forall|i: int| 0 <= i < specs.len() ==> spec_supported(#[trigger] specs[i])
}

/// The operations one supported specification stands for: none for an
/// empty specification and for an unknown or unspecified colour filter,
/// otherwise exactly one.
pub open spec fn ops_of(spec: Spec) -> Seq<ImageOp> {
    match spec.data {
        Some(Data::Crop(c)) => seq![ImageOp::Crop { x1: c.x1, y1: c.y1, x2: c.x2, y2: c.y2 }],
        Some(Data::Resize(r)) => match resize_type_of(r.rtype) {
            Some(ResizeType::SeamCarve) => seq![
                ImageOp::SeamCarve { width: r.width, height: r.height },
            ],
            _ => seq![
                ImageOp::Resize {
                    width: r.width,
                    height: r.height,
                    sampling: sampling_for(sample_filter_of(r.filter)->Some_0),
                },
            ],
        },
        Some(Data::Flipv(_)) => seq![ImageOp::FlipV],
        Some(Data::Fliph(_)) => seq![ImageOp::FlipH],
        Some(Data::Contrast(c)) => seq![ImageOp::Contrast { contrast_bits: c.contrast_bits }],
        Some(Data::Filter(f)) => match filter_of(f.filter) {
            Some(Filter::Unspecified) => Seq::empty(),
            Some(known) => seq![ImageOp::Filter { filter: known }],
            None => Seq::empty(),
        },
        Some(Data::Watermark(w)) => seq![ImageOp::Watermark { x: w.x, y: w.y }],
        Some(Data::Oil(o)) => seq![
            ImageOp::Oil { radius: o.radius as i32, intensity_bits: o.intensity_bits },
        ],
        None => Seq::empty(),
    }
}

/// The operations a list of specifications stands for, in order.
pub open spec fn ops_for(specs: Seq<Spec>) -> Seq<ImageOp>
    decreases specs.len(),
{
    if specs.len() == 0 {
        Seq::empty()
    } else {
        ops_for(specs.drop_last()) + ops_of(specs.last())
    }
}

/// Carrying out two lists of specifications one after the other is carrying
/// out their concatenation.
pub proof fn lemma_ops_for_concat(a: Seq<Spec>, b: Seq<Spec>)
    ensures
        ops_for(a + b) == ops_for(a) + ops_for(b),
    decreases b.len(),
{
    if b.len() == 0 {
        assert(a + b =~= a);
        assert(ops_for(a) + ops_for(b) =~= ops_for(a));
    } else {
        assert((a + b).drop_last() =~= a + b.drop_last());
        assert((a + b).last() == b.last());
        lemma_ops_for_concat(a, b.drop_last());
        assert(ops_for(a + b) =~= ops_for(a) + ops_for(b));
    }
}

/// Planning a single supported specification, field for field: a crop is
/// a crop to the same four corners; a resize of type 1 is seam carving to
/// its width and height, one of type 0 is scaling to its width and height
/// with the sampling its filter number names (0 and 1 nearest, 2 triangle,
/// 3 Catmull-Rom, 4 Gaussian, 5 Lanczos3); the flips are the flips; a
/// contrast keeps its amount; the colour filters 1, 2 and 3 are the oceanic,
/// islands and marine filters and any other filter number plans nothing; a
/// watermark is stamped at its own x and its own y; an oil painting keeps its
/// radius and intensity; an empty specification plans nothing.
pub proof fn lemma_plan_of_one_spec(spec: Spec)
    requires
        spec_supported(spec),
    ensures
        spec.data matches Some(Data::Crop(c)) ==> ops_for(seq![spec]) == seq![
            ImageOp::Crop { x1: c.x1, y1: c.y1, x2: c.x2, y2: c.y2 },
        ],
        spec.data matches Some(Data::Resize(r)) ==> (r.rtype == 1 ==> ops_for(seq![spec]) == seq![
            ImageOp::SeamCarve { width: r.width, height: r.height },
        ]),
        spec.data matches Some(Data::Resize(r)) ==> (r.rtype == 0 ==> ops_for(seq![spec]) == seq![
            ImageOp::Resize {
                width: r.width,
                height: r.height,
                sampling: if r.filter == 0 || r.filter == 1 {
                    Sampling::Nearest
                } else if r.filter == 2 {
                    Sampling::Triangle
                } else if r.filter == 3 {
                    Sampling::CatmullRom
                } else if r.filter == 4 {
                    Sampling::Gaussian
                } else {
                    Sampling::Lanczos3
                },
            },
        ]),
        spec.data matches Some(Data::Flipv(_)) ==> ops_for(seq![spec]) == seq![ImageOp::FlipV],
        spec.data matches Some(Data::Fliph(_)) ==> ops_for(seq![spec]) == seq![ImageOp::FlipH],
        spec.data matches Some(Data::Contrast(c)) ==> ops_for(seq![spec]) == seq![
            ImageOp::Contrast { contrast_bits: c.contrast_bits },
        ],
        spec.data matches Some(Data::Filter(f)) ==> ops_for(seq![spec]) == (if f.filter == 1 {
            seq![ImageOp::Filter { filter: Filter::Oceanic }]
        } else if f.filter == 2 {
            seq![ImageOp::Filter { filter: Filter::Islands }]
        } else if f.filter == 3 {
            seq![ImageOp::Filter { filter: Filter::Marine }]
        } else {
            Seq::<ImageOp>::empty()
        }),
        spec.data matches Some(Data::Watermark(w)) ==> ops_for(seq![spec]) == seq![
            ImageOp::Watermark { x: w.x, y: w.y },
        ],
        spec.data matches Some(Data::Oil(o)) ==> ops_for(seq![spec]) == seq![
            ImageOp::Oil { radius: o.radius as i32, intensity_bits: o.intensity_bits },
        ],
        spec.data is None ==> ops_for(seq![spec]) == Seq::<ImageOp>::empty(),
{
    let s = seq![spec];
    assert(s.drop_last() =~= Seq::<Spec>::empty());
    assert(s.last() == spec);
    assert(ops_for(s.drop_last()) == Seq::<ImageOp>::empty());
    assert(ops_for(s) =~= ops_of(spec));
}

/// Support, by the numbers: a resize specification is supported exactly
/// when its type is 1 (seam carving), or its type is 0 (scaling) and its
/// sample filter number is one of 0 to 5, the undefined filter 0 included;
/// every other specification is supported.
pub proof fn lemma_supported_by_numbers(spec: Spec)
    ensures
        spec.data matches Some(Data::Resize(r)) ==> (spec_supported(spec) <==> (r.rtype == 1 || (
        r.rtype == 0 && 0 <= r.filter <= 5))),
        !(spec.data matches Some(Data::Resize(_))) ==> spec_supported(spec),
{
}

/// Whether the engine can carry out `spec`.
pub fn supported(spec: &Spec) -> (r: bool)
    ensures
        r == spec_supported(*spec),
{
    match spec.data {
        Some(Data::Resize(r)) => match ResizeType::from_i32(r.rtype) {
            Some(ResizeType::Normal) => SampleFilter::from_i32(r.filter).is_some(),
            Some(ResizeType::SeamCarve) => true,
            None => false,
        },
        _ => true,
    }
}

/// Whether the engine can carry out every specification in `specs`.
pub fn all_specs_supported(specs: &[Spec]) -> (r: bool)
    ensures
        r == all_supported(specs@),
{
    let mut i: usize = 0;
    while i < specs.len()
        invariant
            i <= specs@.len(),
            forall|j: int| 0 <= j < i ==> spec_supported(#[trigger] specs@[j]),
        decreases specs@.len() - i,
    {
        if !supported(&specs[i]) {
            return false;
        }
        i = i + 1;
    }
    true
}

/// The operations that one supported specification stands for.
fn ops_of_spec(spec: &Spec, out: &mut Vec<ImageOp>)
    requires
        spec_supported(*spec),
    ensures
        final(out)@ == old(out)@ + ops_of(*spec),
{
    let ghost before = out@;
    match spec.data {
        Some(Data::Crop(c)) => out.push(ImageOp::Crop { x1: c.x1, y1: c.y1, x2: c.x2, y2: c.y2 }),
        Some(Data::Resize(r)) => match ResizeType::from_i32(r.rtype) {
            Some(ResizeType::SeamCarve) => out.push(
                ImageOp::SeamCarve { width: r.width, height: r.height },
            ),
            _ => match SampleFilter::from_i32(r.filter) {
                Some(f) => out.push(
                    ImageOp::Resize { width: r.width, height: r.height, sampling: sampling(f) },
                ),
                None => {},
            },
        },
        Some(Data::Flipv(_)) => out.push(ImageOp::FlipV),
        Some(Data::Fliph(_)) => out.push(ImageOp::FlipH),
        Some(Data::Contrast(c)) => out.push(ImageOp::Contrast { contrast_bits: c.contrast_bits }),
        Some(Data::Filter(f)) => match Filter::from_i32(f.filter) {
            Some(Filter::Unspecified) => {},
            Some(known) => out.push(ImageOp::Filter { filter: known }),
            None => {},
        },
        Some(Data::Watermark(w)) => out.push(ImageOp::Watermark { x: w.x, y: w.y }),
        Some(Data::Oil(o)) => out.push(
            ImageOp::Oil { radius: o.radius as i32, intensity_bits: o.intensity_bits },
        ),
        None => {},
    }
    assert(out@ =~= before + ops_of(*spec));
}

/// The operations that carry out `specs`, in order: what an image engine
/// applies for a request.
pub fn plan(specs: &[Spec]) -> (r: Vec<ImageOp>)
    requires
        all_supported(specs@),
    ensures
        r@ == ops_for(specs@),
{
    let mut out: Vec<ImageOp> = Vec::new();
    let mut i: usize = 0;
    while i < specs.len()
        invariant
            i <= specs@.len(),
            all_supported(specs@),
            out@ == ops_for(specs@.subrange(0, i as int)),
        decreases specs@.len() - i,
    {
        ops_of_spec(&specs[i], &mut out);
        proof {
            let pre = specs@.subrange(0, i + 1);
            assert(pre.drop_last() =~= specs@.subrange(0, i as int));
            assert(pre.last() == specs@[i as int]);
        }
        i = i + 1;
    }
    assert(specs@.subrange(0, specs@.len() as int) =~= specs@);
    out
}

/// A decoded picture: RGBA pixels, row by row, and its size.
pub struct Picture {
    pub pixels: Vec<u8>,
    pub width: u32,
    pub height: u32,
}

/// What `photon_rs::native::open_image_from_bytes` makes of an encoded image
/// file: its RGBA pixels, width and height, or none when it cannot read it.
pub uninterp spec fn decoded_image(bytes: Seq<u8>) -> Option<(Seq<u8>, u32, u32)>;

/// Calls `photon_rs::native::open_image_from_bytes` and takes the pixels,
/// width and height of the image; the pixels are four bytes for each point.
#[verifier::external_body]
fn open_image(bytes: &[u8]) -> (r: Option<(Vec<u8>, u32, u32)>)
    ensures
        match r {
            Some((p, w, h)) => decoded_image(bytes@) == Some((p@, w, h)) && p@.len() == 4 * w * h,
            None => decoded_image(bytes@) is None,
        },
{
    match photon_rs::native::open_image_from_bytes(bytes) {
        Ok(img) => Some((img.get_raw_pixels(), img.get_width(), img.get_height())),
        Err(_) => None,
    }
}

/// The picture an image file holds, or none when it cannot be read.
pub fn decode_picture(bytes: &[u8]) -> (r: Option<Picture>)
    ensures
        match r {
            Some(p) => decoded_image(bytes@) == Some((p.pixels@, p.width, p.height))
                && p.pixels@.len() == 4 * p.width * p.height,
            None => decoded_image(bytes@) is None,
        },
{
    match open_image(bytes) {
        Some((pixels, width, height)) => Some(Picture { pixels, width, height }),
        None => None,
    }
}

/// The file formats a picture can be written in.
#[derive(Clone, Copy, Debug, PartialEq, Eq, Structural)]
pub enum OutputFormat {
    Png,
    Jpeg { quality: u8 },
    Gif,
    Ico,
    Bmp,
    Tga,
}

/// The number by which a format is handed to the encoder.
pub open spec fn format_code(f: OutputFormat) -> u8 {
    match f {
        OutputFormat::Png => 0,
        OutputFormat::Jpeg { .. } => 1,
        OutputFormat::Gif => 2,
        OutputFormat::Ico => 3,
        OutputFormat::Bmp => 4,
        OutputFormat::Tga => 5,
    }
}

/// The JPEG quality of a format (zero for the others).
pub open spec fn format_quality(f: OutputFormat) -> u8 {
    match f {
        OutputFormat::Jpeg { quality } => quality,
        _ => 0,
    }
}

/// The eight bytes a PNG file begins with.
pub open spec fn png_signature() -> Seq<u8> {
    seq![137u8, 80u8, 78u8, 71u8, 13u8, 10u8, 26u8, 10u8]
}

/// The start-of-image marker a JPEG file begins with.
pub open spec fn jpeg_signature() -> Seq<u8> {
    seq![0xFFu8, 0xD8u8]
}

/// "GIF89a", which a GIF file of this version begins with.
pub open spec fn gif_signature() -> Seq<u8> {
    seq![71u8, 73u8, 70u8, 56u8, 57u8, 97u8]
}

/// The directory header of an ICO file that holds one icon.
pub open spec fn ico_signature() -> Seq<u8> {
    seq![0u8, 0u8, 1u8, 0u8, 1u8, 0u8]
}

/// "BM", which a BMP file begins with.
pub open spec fn bmp_signature() -> Seq<u8> {
    seq![66u8, 77u8]
}

/// The first bytes of a TGA file with no id and no colour map: of a
/// true-colour picture (image type 2) when it has points at all, of no
/// picture (type 0) when it is empty.
pub open spec fn tga_signature(width: u32, height: u32) -> Seq<u8> {
    seq![0u8, 0u8, if width > 0 && height > 0 { 2u8 } else { 0u8 }]
}

/// The first bytes of the file a format gives for a picture of `width` x
/// `height` points.
pub open spec fn format_signature(format: OutputFormat, width: u32, height: u32) -> Seq<u8> {
    match format {
        OutputFormat::Png => png_signature(),
        OutputFormat::Jpeg { .. } => jpeg_signature(),
        OutputFormat::Gif => gif_signature(),
        OutputFormat::Ico => ico_signature(),
        OutputFormat::Bmp => bmp_signature(),
        OutputFormat::Tga => tga_signature(width, height),
    }
}

/// Whether two formats are of one kind (JPEG at any quality is one kind).
pub open spec fn same_kind(a: OutputFormat, b: OutputFormat) -> bool {
    match (a, b) {
        (OutputFormat::Jpeg { .. }, OutputFormat::Jpeg { .. }) => true,
        _ => a == b,
    }
}

/// No file is taken for two kinds of file: the first bytes of formats of
/// different kinds never both begin one file, whatever the picture's size.
pub proof fn lemma_signatures_tell_formats_apart(
    bytes: Seq<u8>,
    a: OutputFormat,
    b: OutputFormat,
    width: u32,
    height: u32,
)
    requires
        !same_kind(a, b),
    ensures
        !(format_signature(a, width, height).is_prefix_of(bytes) && format_signature(
            b,
            width,
            height,
        ).is_prefix_of(bytes)),
{
    let sa = format_signature(a, width, height);
    let sb = format_signature(b, width, height);
    if sa.is_prefix_of(bytes) && sb.is_prefix_of(bytes) {
        assert(bytes[0] == sa[0] && bytes[0] == sb[0]);
        assert(bytes[1] == sa[1] && bytes[1] == sb[1]);
        if sa.len() > 2 && sb.len() > 2 {
            assert(bytes[2] == sa[2] && bytes[2] == sb[2]);
        }
    }
}

/// The file that the `image` crate writes for an RGBA picture of `width` x
/// `height` pixels in the format numbered `format` (0 PNG, 1 JPEG at
/// `quality`, 2 GIF, 3 ICO, 4 BMP, 5 TGA), or none when it cannot.
pub uninterp spec fn encoded_picture(
    pixels: Seq<u8>,
    width: u32,
    height: u32,
    format: u8,
    quality: u8,
) -> Option<Seq<u8>>;

/// Wraps the pixels with `image::ImageBuffer::from_vec` as an RGBA picture
/// and writes it with `DynamicImage::write_to` in the numbered format. Too
/// few pixels for the size give none. Of the file's bytes only their
/// beginning is stated, as each encoder writes it first: the PNG signature,
/// the JPEG start-of-image marker, "GIF89a", the ICO directory of one icon,
/// "BM", and the TGA header's id length, colour map type and image type; the
/// rest is left to the named result.
#[verifier::external_body]
fn encode_rgba(pixels: Vec<u8>, width: u32, height: u32, format: u8, quality: u8) -> (r: Option<
    Vec<u8>,
>)
    requires
        format <= 5,
    ensures
        match r {
            Some(b) => encoded_picture(pixels@, width, height, format, quality) == Some(b@),
            None => encoded_picture(pixels@, width, height, format, quality) is None,
        },
        pixels@.len() < 4 * width * height ==> r is None,
        r matches Some(b) ==> {
            &&& format == 0 ==> png_signature().is_prefix_of(b@)
            &&& format == 1 ==> jpeg_signature().is_prefix_of(b@)
            &&& format == 2 ==> gif_signature().is_prefix_of(b@)
            &&& format == 3 ==> ico_signature().is_prefix_of(b@)
            &&& format == 4 ==> bmp_signature().is_prefix_of(b@)
            &&& format == 5 ==> tga_signature(width, height).is_prefix_of(b@)
        },
{
    let output = match format {
        0 => image::ImageOutputFormat::Png,
        1 => image::ImageOutputFormat::Jpeg(quality),
        2 => image::ImageOutputFormat::Gif,
        3 => image::ImageOutputFormat::Ico,
        4 => image::ImageOutputFormat::Bmp,
        _ => image::ImageOutputFormat::Tga,
    };
    let buf = image::ImageBuffer::<image::Rgba<u8>, Vec<u8>>::from_vec(width, height, pixels)?;
    let mut out: Vec<u8> = Vec::new();
    match image::DynamicImage::ImageRgba8(buf).write_to(&mut out, output) {
        Ok(()) => Some(out),
        Err(_) => None,
    }
}

/// The file for a processed picture in the given format, or none when the
/// pixels do not cover the size or the picture cannot be encoded.
pub fn image_to_buf(picture: Picture, format: OutputFormat) -> (r: Option<Vec<u8>>)
    ensures
        match r {
            Some(b) => encoded_picture(
                picture.pixels@,
                picture.width,
                picture.height,
                format_code(format),
                format_quality(format),
            ) == Some(b@),
            None => encoded_picture(
                picture.pixels@,
                picture.width,
                picture.height,
                format_code(format),
                format_quality(format),
            ) is None,
        },
        picture.pixels@.len() < 4 * picture.width * picture.height ==> r is None,
        r matches Some(b) ==> {
            &&& format == OutputFormat::Png ==> png_signature().is_prefix_of(b@)
            &&& format is Jpeg ==> jpeg_signature().is_prefix_of(b@)
            &&& format == OutputFormat::Gif ==> gif_signature().is_prefix_of(b@)
            &&& format == OutputFormat::Ico ==> ico_signature().is_prefix_of(b@)
            &&& format == OutputFormat::Bmp ==> bmp_signature().is_prefix_of(b@)
            &&& format == OutputFormat::Tga ==> tga_signature(
                picture.width,
                picture.height,
            ).is_prefix_of(b@)
        },
        r matches Some(b) ==> format_signature(format, picture.width, picture.height).is_prefix_of(
            b@,
        ),
{
    let (code, quality): (u8, u8) = match format {
        OutputFormat::Png => (0, 0),
        OutputFormat::Jpeg { quality } => (1, quality),
        OutputFormat::Gif => (2, 0),
        OutputFormat::Ico => (3, 0),
        OutputFormat::Bmp => (4, 0),
        OutputFormat::Tga => (5, 0),
    };
    encode_rgba(picture.pixels, picture.width, picture.height, code, quality)
}

} // verus!
