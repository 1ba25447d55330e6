use rust_lessons::text::{lifetime1, lifetime2, lifetime3, strtok};

#[test]
fn strtok_splits_at_first_space() {
    let s = "hello, world!".to_owned();
    let mut s1 = s.as_str();
    let hello = strtok(&mut s1, ' ');
    assert_eq!(hello, "hello,");
    assert_eq!(s1, "world!");
    assert_eq!(s, "hello, world!");
}

#[test]
fn strtok_without_delimiter_takes_everything() {
    let mut s = "abc";
    let first = strtok(&mut s, 'x');
    assert_eq!(first, "abc");
    assert_eq!(s, "");
}

#[test]
fn strtok_on_empty_string() {
    let mut s = "";
    assert_eq!(strtok(&mut s, ','), "");
    assert_eq!(s, "");
}

#[test]
fn strtok_leading_and_repeated_delimiters() {
    let mut s = ",a,,b";
    assert_eq!(strtok(&mut s, ','), "");
    assert_eq!(s, "a,,b");
    assert_eq!(strtok(&mut s, ','), "a");
    assert_eq!(strtok(&mut s, ','), "");
    assert_eq!(strtok(&mut s, ','), "b");
    assert_eq!(s, "");
}

#[test]
fn strtok_multibyte_delimiter_and_text() {
    let mut s = "grüß€welt€";
    assert_eq!(strtok(&mut s, '€'), "grüß");
    assert_eq!(s, "welt€");
    assert_eq!(strtok(&mut s, '€'), "welt");
    assert_eq!(s, "");
}

#[test]
fn strtok_reassembles_original() {
    let original = "key=value=more";
    let mut rest = original;
    let head = strtok(&mut rest, '=');
    assert_eq!(format!("{}={}", head, rest), original);
    assert!(!head.contains('='));
}

#[test]
fn lifetime1_drops_first_letter() {
    assert_eq!(lifetime1(), "yr");
}

#[test]
fn lifetime2_drops_first_letter() {
    assert_eq!(lifetime2("Tyr".to_string()), "yr");
    assert_eq!(lifetime2("a".to_string()), "");
    assert_eq!(lifetime2("aé".to_string()), "é");
}

#[test]
fn lifetime3_lists_characters() {
    assert_eq!(lifetime3("héllo"), vec!['h', 'é', 'l', 'l', 'o']);
    assert_eq!(lifetime3(""), Vec::<char>::new());
}

#[test]
fn strtok_repeated_matches_split() {
    for (text, d) in [("a,b,,c", ','), ("", ','), (",", ','), ("abc", ','), ("x€y€", '€'), ("hello, world!", ' ')] {
        let parts: Vec<&str> = text.split(d).collect();
        let mut rest = text;
        for j in 0..parts.len() + 2 {
            let tok = strtok(&mut rest, d);
            if j < parts.len() {
                assert_eq!(tok, parts[j], "text {:?} call {}", text, j);
            } else {
                assert_eq!(tok, "");
            }
            if j + 1 >= parts.len() {
                assert_eq!(rest, "");
            }
        }
    }
}
