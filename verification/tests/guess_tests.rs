use rust_lessons::guess::{judge, new_secret, trim, Guess};

#[test]
fn judge_compares_with_secret() {
    assert_eq!(judge("50\n", 42), Guess::TooBig);
    assert_eq!(judge(" 10 \r\n", 42), Guess::TooSmall);
    assert_eq!(judge("42\n", 42), Guess::Correct);
    assert_eq!(judge("-5\n", 0), Guess::TooSmall);
    assert_eq!(judge("+100", 100), Guess::Correct);
}

#[test]
fn judge_ignores_non_numbers() {
    assert_eq!(judge("abc\n", 42), Guess::NotANumber);
    assert_eq!(judge("\n", 42), Guess::NotANumber);
    assert_eq!(judge("4 2", 42), Guess::NotANumber);
    assert_eq!(judge("99999999999999999999", 42), Guess::NotANumber);
}

#[test]
fn trim_matches_std() {
    for s in ["", "  ", "\t x \u{3000}", "a b", "\u{85}q\u{2028}", " \n42\n"] {
        assert_eq!(trim(s), s.trim(), "input {:?}", s);
    }
}

#[test]
fn secret_is_in_range() {
    for _ in 0..200 {
        let s = new_secret();
        assert!((0..=100).contains(&s));
    }
}
