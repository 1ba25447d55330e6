use rust_lessons::developer::{Developer, Language};

#[test]
fn new_developer_description() {
    let d1 = Developer::new("jackson");
    assert_eq!(d1.name, "jackson");
    assert_eq!(d1.age, 0);
    assert_eq!(d1.language, Language::Rust);
    assert_eq!(d1.to_string(), "jackson is 0 years old, and he is a Rust developer");
}

#[test]
fn default_developer_description() {
    let d2: Developer = Default::default();
    assert_eq!(d2.to_string(), " is 0 years old, and he is a Rust developer");
    let d3 = Developer::default();
    assert_eq!(d3.name, "");
    assert_eq!(Language::default(), Language::Rust);
}

#[test]
fn description_with_all_ages_digits() {
    let mut d = Developer::new("tyr");
    for (age, text) in [(7u8, "7"), (42, "42"), (100, "100"), (255, "255")] {
        d.age = age;
        assert_eq!(d.to_string(), format!("tyr is {} years old, and he is a Rust developer", text));
    }
}

#[test]
fn language_names_match_debug() {
    for l in [Language::Rust, Language::Java, Language::Python, Language::Php, Language::TypeScript] {
        assert_eq!(l.debug_name(), format!("{:?}", l));
        let d = Developer { name: "x".to_string(), age: 30, language: l };
        assert_eq!(d.to_string(), format!("x is 30 years old, and he is a {:?} developer", l));
    }
}
