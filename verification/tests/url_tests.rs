use rust_lessons::url::{decode_image_url, encode_image_url, test_url};

#[test]
fn encode_keeps_only_letters_and_digits() {
    assert_eq!(encode_image_url("https://a.b/c d"), "https%3A%2F%2Fa%2Eb%2Fc%20d");
    assert_eq!(encode_image_url("Az09"), "Az09");
    assert_eq!(encode_image_url("é"), "%C3%A9");
    assert_eq!(encode_image_url(""), "");
}

#[test]
fn decode_of_encoded_gives_url_back() {
    for url in ["https://images.pexels.com/photos/1562477/pexels-photo-1562477.jpeg?auto=compress&cs=tinysrgb&dpr=3&h=750&w=1260",
                "ünïcødé/路径", "", "%41"] {
        assert_eq!(decode_image_url(&encode_image_url(url)), url);
    }
}

#[test]
fn decode_leaves_broken_escapes() {
    assert_eq!(decode_image_url("a%zzb%4"), "a%zzb%4");
    assert_eq!(decode_image_url("%41%62"), "Ab");
    assert_eq!(decode_image_url("%ff"), "\u{fffd}");
}

#[test]
fn request_url() {
    assert_eq!(test_url("CgoKCAjIARCQAxgB", "http://x/y.jpg"),
        "http://localhost:3000/image/CgoKCAjIARCQAxgB/http%3A%2F%2Fx%2Fy%2Ejpg");
}
