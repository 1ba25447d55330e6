use rust_lessons::cache::ImageCache;
use std::hash::{Hash, Hasher};

#[test]
fn stored_image_is_found_again() {
    let mut c = ImageCache::new(4);
    let k = ImageCache::key_for("http://x/a.jpg");
    assert_eq!(c.lookup(k), None);
    c.store(k, vec![1, 2, 3]);
    assert_eq!(c.lookup(k), Some(vec![1, 2, 3]));
    c.store(k, vec![9]);
    assert_eq!(c.lookup(k), Some(vec![9]));
}

#[test]
fn least_recently_used_goes_first() {
    let mut c = ImageCache::new(2);
    c.store(1, vec![1]);
    c.store(2, vec![2]);
    assert_eq!(c.lookup(1), Some(vec![1]));
    c.store(3, vec![3]);
    assert_eq!(c.lookup(2), None);
    assert_eq!(c.lookup(1), Some(vec![1]));
    assert_eq!(c.lookup(3), Some(vec![3]));
}

#[test]
fn zero_capacity_holds_nothing() {
    let mut c = ImageCache::new(0);
    c.store(5, vec![5]);
    assert_eq!(c.lookup(5), None);
}

#[test]
fn keys_depend_on_the_url() {
    let a = ImageCache::key_for("http://x/a.jpg");
    assert_eq!(a, ImageCache::key_for("http://x/a.jpg"));
    assert_ne!(a, ImageCache::key_for("http://x/b.jpg"));
    let mut h = std::collections::hash_map::DefaultHasher::new();
    "http://x/a.jpg".hash(&mut h);
    assert_eq!(a, h.finish());
}

#[test]
fn lookup_keeps_other_images() {
    let mut c = ImageCache::new(3);
    c.store(1, vec![1]);
    c.store(2, vec![2]);
    c.store(3, vec![3]);
    assert_eq!(c.lookup(2), Some(vec![2]));
    assert_eq!(c.lookup(1), Some(vec![1]));
    assert_eq!(c.lookup(3), Some(vec![3]));
    assert_eq!(c.lookup(2), Some(vec![2]));
}
