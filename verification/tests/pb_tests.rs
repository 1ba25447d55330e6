use rust_lessons::pb::filter::Filter;
use rust_lessons::pb::resize::{ResizeType, SampleFilter};
use rust_lessons::pb::spec::Data;
use rust_lessons::pb::{spec_bytes_from_text, spec_text_from_bytes, ImageSpec, Resize, Spec, SpecTextError, Watermark};

#[test]
fn filter_names() {
    assert_eq!(Filter::Unspecified.to_string(), None);
    assert_eq!(Filter::Oceanic.to_string(), Some("oceanic"));
    assert_eq!(Filter::Islands.to_string(), Some("islands"));
    assert_eq!(Filter::Marine.to_string(), Some("marine"));
}

#[test]
fn protocol_numbers() {
    assert_eq!(Filter::from_i32(2), Some(Filter::Islands));
    assert_eq!(Filter::from_i32(4), None);
    assert_eq!(Filter::Marine.to_i32(), 3);
    assert_eq!(ResizeType::from_i32(1), Some(ResizeType::SeamCarve));
    assert_eq!(ResizeType::from_i32(-1), None);
    assert_eq!(SampleFilter::from_i32(3), Some(SampleFilter::CatmullRom));
    assert_eq!(SampleFilter::Lanczos3.to_i32(), 5);
    assert_eq!(SampleFilter::from_i32(6), None);
}

#[test]
fn spec_constructors() {
    let r = Spec::new_resize(300, 400, SampleFilter::CatmullRom);
    assert_eq!(r.data, Some(Data::Resize(Resize { width: 300, height: 400, rtype: 0, filter: 3 })));
    let w = Spec::new_watermark(20, 20);
    assert_eq!(w.data, Some(Data::Watermark(Watermark { x: 20, y: 20 })));
    let spec = ImageSpec::new(vec![r, w]);
    assert_eq!(spec.specs, vec![r, w]);
}

#[test]
fn spec_text_known_values() {
    assert_eq!(spec_text_from_bytes(&[]), "");
    assert_eq!(spec_text_from_bytes(b"hello"), "aGVsbG8");
    assert_eq!(spec_text_from_bytes(&[0xfb, 0xff]), "-_8");
}

#[test]
fn spec_text_round_trip() {
    for bytes in [vec![], vec![0u8], vec![0xfb, 0xff, 0x00, 0x10], (0..=255u8).collect::<Vec<u8>>()] {
        let text = spec_text_from_bytes(&bytes);
        assert_eq!(spec_bytes_from_text(&text), Ok(bytes.clone()));
    }
}

#[test]
fn spec_text_refused() {
    assert_eq!(spec_bytes_from_text("***"), Err(SpecTextError));
    assert_eq!(spec_bytes_from_text("a"), Err(SpecTextError));
}

#[test]
fn protocol_numbers_round_trip() {
    for f in [Filter::Unspecified, Filter::Oceanic, Filter::Islands, Filter::Marine] {
        assert_eq!(Filter::from_i32(f.to_i32()), Some(f));
    }
    for t in [ResizeType::Normal, ResizeType::SeamCarve] {
        assert_eq!(ResizeType::from_i32(t.to_i32()), Some(t));
    }
    for s in [SampleFilter::Undefined, SampleFilter::Nearest, SampleFilter::Triangle,
              SampleFilter::CatmullRom, SampleFilter::Gaussian, SampleFilter::Lanczos3] {
        assert_eq!(SampleFilter::from_i32(s.to_i32()), Some(s));
    }
}
