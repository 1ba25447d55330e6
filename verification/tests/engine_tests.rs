use rust_lessons::engine::{
    all_specs_supported, decode_picture, image_to_buf, plan, sampling, supported, ImageOp, OutputFormat, Picture,
    Sampling,
};
use rust_lessons::pb::filter::Filter as FilterKind;
use rust_lessons::pb::resize::SampleFilter;
use rust_lessons::pb::spec::Data;
use rust_lessons::pb::{Contrast, Crop, Filter, Fliph, Flipv, Oil, Resize, Spec, Watermark};

fn spec(d: Data) -> Spec {
    Spec { data: Some(d) }
}

#[test]
fn plan_maps_each_operation() {
    let specs = vec![
        spec(Data::Crop(Crop { x1: 1, y1: 2, x2: 3, y2: 4 })),
        Spec::new_resize(300, 400, SampleFilter::CatmullRom),
        spec(Data::Resize(Resize { width: 10, height: 20, rtype: 1, filter: 99 })),
        spec(Data::Flipv(Flipv {})),
        spec(Data::Fliph(Fliph {})),
        spec(Data::Contrast(Contrast { contrast_bits: 1.5f32.to_bits() })),
        spec(Data::Filter(Filter { filter: 1 })),
        Spec::new_watermark(20, 20),
        spec(Data::Oil(Oil { radius: 4, intensity_bits: 55.0f32.to_bits() })),
        Spec { data: None },
    ];
    assert!(all_specs_supported(&specs));
    assert_eq!(
        plan(&specs),
        vec![
            ImageOp::Crop { x1: 1, y1: 2, x2: 3, y2: 4 },
            ImageOp::Resize { width: 300, height: 400, sampling: Sampling::CatmullRom },
            ImageOp::SeamCarve { width: 10, height: 20 },
            ImageOp::FlipV,
            ImageOp::FlipH,
            ImageOp::Contrast { contrast_bits: 1.5f32.to_bits() },
            ImageOp::Filter { filter: FilterKind::Oceanic },
            ImageOp::Watermark { x: 20, y: 20 },
            ImageOp::Oil { radius: 4, intensity_bits: 55.0f32.to_bits() },
        ]
    );
}

#[test]
fn plan_skips_unspecified_and_unknown_filters() {
    let specs = vec![spec(Data::Filter(Filter { filter: 0 })), spec(Data::Filter(Filter { filter: 9 }))];
    assert_eq!(plan(&specs), vec![]);
}

#[test]
fn unsupported_resizes() {
    let bad_type = spec(Data::Resize(Resize { width: 1, height: 1, rtype: 5, filter: 0 }));
    let bad_filter = spec(Data::Resize(Resize { width: 1, height: 1, rtype: 0, filter: 6 }));
    assert!(!supported(&bad_type));
    assert!(!supported(&bad_filter));
    assert!(!all_specs_supported(&[Spec::new_watermark(0, 0), bad_filter]));
    assert!(all_specs_supported(&[]));
}

#[test]
fn undefined_sampling_is_nearest() {
    assert_eq!(sampling(SampleFilter::Undefined), Sampling::Nearest);
    assert_eq!(sampling(SampleFilter::Gaussian), Sampling::Gaussian);
}

#[test]
fn plan_of_concatenation() {
    let a = vec![Spec::new_watermark(1, 2), spec(Data::Fliph(Fliph {}))];
    let b = vec![spec(Data::Flipv(Flipv {}))];
    let mut ab = a.clone();
    ab.extend(b.iter().cloned());
    let mut expected = plan(&a);
    expected.extend(plan(&b));
    assert_eq!(plan(&ab), expected);
}

#[test]
fn jpeg_of_small_picture() {
    let pixels = vec![255u8, 0, 0, 255, 0, 255, 0, 255, 0, 0, 255, 255, 9, 9, 9, 255];
    let jpeg = image_to_buf(Picture { pixels, width: 2, height: 2 }, OutputFormat::Jpeg { quality: 85 }).unwrap();
    assert_eq!(&jpeg[..2], &[0xff, 0xd8]);
}

#[test]
fn jpeg_of_too_few_pixels() {
    let p = Picture { pixels: vec![0u8; 15], width: 2, height: 2 };
    assert!(image_to_buf(p, OutputFormat::Jpeg { quality: 85 }).is_none());
}

#[test]
fn png_written_then_decoded_gives_the_picture_back() {
    let pixels: Vec<u8> = (0..48u8).collect();
    let png = image_to_buf(Picture { pixels: pixels.clone(), width: 4, height: 3 }, OutputFormat::Png).unwrap();
    assert_eq!(&png[1..4], b"PNG");
    let back = decode_picture(&png).unwrap();
    assert_eq!((back.width, back.height), (4, 3));
    assert_eq!(back.pixels, pixels);
}

#[test]
fn other_formats_are_written() {
    let pixels = vec![10u8; 4 * 4 * 4];
    for f in [OutputFormat::Gif, OutputFormat::Bmp, OutputFormat::Tga, OutputFormat::Ico] {
        let out = image_to_buf(Picture { pixels: pixels.clone(), width: 4, height: 4 }, f).expect(&format!("{:?}", f));
        assert!(!out.is_empty());
    }
    let bmp = image_to_buf(Picture { pixels, width: 4, height: 4 }, OutputFormat::Bmp).unwrap();
    assert_eq!(&bmp[..2], b"BM");
}

#[test]
fn garbage_is_not_a_picture() {
    assert!(decode_picture(b"not an image").is_none());
    assert!(decode_picture(&[]).is_none());
}
